//! The pipeline: what is done, step by step, with one message.
//!
//! The work on a message is a chain of waits: for the message that is
//! answered, for the download, for the split, for the identity of the sender.
//! None of the waiting is done here. [`handle_event`] takes the state of the
//! work and the event that ended the last wait, and gives the next state and
//! the action to take; the caller takes the action and comes back with the
//! event that follows from it.
//!
//! A failure before the tiles exist is told to the user. A message that is
//! no command, or a command without a picture, is passed over in silence.

use crate::assembler::{choose_delivery, delivery_for, Conversation, Delivery};
use crate::command::{command_of, parse_command};
use crate::locator::{
    first_image_url, first_reply_id, get_image_url, locator_step, segments_of, text_of,
    LocatorAction, LocatorActionView, LocatorEvent, LocatorEventView, LocatorState, Segment,
    SegmentView,
};
use crate::splitter::SplitError;
use vstd::prelude::*;

verus! {

/// What the user is told when the work fails.
#[derive(Clone, Copy, Debug, PartialEq, Eq, Structural)]
pub enum Notice {
    /// The picture could not be downloaded.
    DownloadFailed,
    /// The picture could not be split, and why.
    SplitFailed(SplitError),
    /// The split itself broke down.
    InternalError,
    /// The identity of the sender could not be had.
    IdentityFailed,
}

/// How far the work on a message has come.
#[derive(Clone, Copy, Debug, PartialEq, Eq, Structural)]
pub enum PipelineState {
    /// No message has come in yet.
    Idle,
    /// The message that is answered has been asked for.
    Locating { rows: u32, cols: u32, conversation: Conversation },
    /// The picture is being downloaded.
    Downloading { rows: u32, cols: u32, conversation: Conversation },
    /// The picture is being split.
    Splitting { conversation: Conversation },
    /// The identity of the sender has been asked for.
    Identifying { conversation: Conversation },
    /// The work is over.
    Finished,
}

/// What happened: the end of a wait.
#[derive(Debug, PartialEq, Eq)]
pub enum PipelineEvent {
    /// A message has come in: its plain text, if it has any, its segments,
    /// and where it came from.
    Message { text: Option<String>, segments: Vec<Segment>, conversation: Conversation },
    /// The message that was asked for has come in.
    Reply(Vec<Segment>),
    /// The message that was asked for could not be had.
    ReplyFailed,
    /// The picture has been downloaded.
    Downloaded,
    /// The download failed.
    DownloadFailed,
    /// The picture has been split into its tiles.
    SplitDone,
    /// The picture was not split, and why.
    SplitFailed(SplitError),
    /// The split broke down before it gave an answer.
    SplitCrashed,
    /// The identity of the sender is known.
    Identified,
    /// The identity of the sender could not be had.
    IdentityFailed,
}

/// An event as a value of mathematics.
pub enum PipelineEventView {
    Message { text: Option<Seq<char>>, segments: Seq<SegmentView>, conversation: Conversation },
    Reply(Seq<SegmentView>),
    ReplyFailed,
    Downloaded,
    DownloadFailed,
    SplitDone,
    SplitFailed(SplitError),
    SplitCrashed,
    Identified,
    IdentityFailed,
}

impl View for PipelineEvent {
    type V = PipelineEventView;

    open spec fn view(&self) -> PipelineEventView {
        match self {
            PipelineEvent::Message { text, segments, conversation } => PipelineEventView::Message {
                text: text_of(*text),
                segments: segments_of(segments@),
                conversation: *conversation,
            },
            PipelineEvent::Reply(segments) => PipelineEventView::Reply(segments_of(segments@)),
            PipelineEvent::ReplyFailed => PipelineEventView::ReplyFailed,
            PipelineEvent::Downloaded => PipelineEventView::Downloaded,
            PipelineEvent::DownloadFailed => PipelineEventView::DownloadFailed,
            PipelineEvent::SplitDone => PipelineEventView::SplitDone,
            PipelineEvent::SplitFailed(e) => PipelineEventView::SplitFailed(*e),
            PipelineEvent::SplitCrashed => PipelineEventView::SplitCrashed,
            PipelineEvent::Identified => PipelineEventView::Identified,
            PipelineEvent::IdentityFailed => PipelineEventView::IdentityFailed,
        }
    }
}

/// What is to be done next.
#[derive(Debug, PartialEq, Eq)]
pub enum PipelineAction {
    /// Nothing, and nothing is said.
    Stop,
    /// The message with this identifier is to be fetched.
    Lookup(i32),
    /// The user is told that the picture is being cut into so many rows and
    /// columns, and the picture at this address is to be downloaded.
    Download { rows: u32, cols: u32, url: String },
    /// The downloaded picture is to be split into this grid.
    Split { rows: u32, cols: u32 },
    /// The identity of the sender is to be asked for.
    Identify,
    /// The user is to be told of a failure; the work is over.
    Notify(Notice),
    /// The tiles are to be sent this way; the work is over.
    Deliver(Delivery),
}

/// An action as a value of mathematics.
pub enum PipelineActionView {
    Stop,
    Lookup(i32),
    Download { rows: u32, cols: u32, url: Seq<char> },
    Split { rows: u32, cols: u32 },
    Identify,
    Notify(Notice),
    Deliver(Delivery),
}

impl View for PipelineAction {
    type V = PipelineActionView;

    open spec fn view(&self) -> PipelineActionView {
        match self {
            PipelineAction::Stop => PipelineActionView::Stop,
            PipelineAction::Lookup(id) => PipelineActionView::Lookup(*id),
            PipelineAction::Download { rows, cols, url } => PipelineActionView::Download {
                rows: *rows,
                cols: *cols,
                url: url@,
            },
            PipelineAction::Split { rows, cols } => PipelineActionView::Split {
                rows: *rows,
                cols: *cols,
            },
            PipelineAction::Identify => PipelineActionView::Identify,
            PipelineAction::Notify(notice) => PipelineActionView::Notify(*notice),
            PipelineAction::Deliver(delivery) => PipelineActionView::Deliver(*delivery),
        }
    }
}

/// The step after a step of the locator: download what was found, fetch
/// what is to be looked up, stop where there is no picture.
pub open spec fn after_locating(
    found: LocatorActionView,
    rows: u32,
    cols: u32,
    conversation: Conversation,
) -> (PipelineState, PipelineActionView) {
    match found {
        LocatorActionView::Found(url) => (
            PipelineState::Downloading { rows, cols, conversation },
            PipelineActionView::Download { rows, cols, url },
        ),
        LocatorActionView::Lookup(id) => (
            PipelineState::Locating { rows, cols, conversation },
            PipelineActionView::Lookup(id),
        ),
        LocatorActionView::NotFound => (PipelineState::Finished, PipelineActionView::Stop),
    }
}

/// The step that the pipeline takes on an event: the state it goes to and
/// the action it asks for. An event that comes out of turn ends the work in
/// silence.
pub open spec fn pipeline_step(state: PipelineState, event: PipelineEventView) -> (
    PipelineState,
    PipelineActionView,
) {
    let stop = (PipelineState::Finished, PipelineActionView::Stop);
    match (state, event) {
        (PipelineState::Idle, PipelineEventView::Message { text, segments, conversation }) => {
            match text {
                None => stop,
                Some(text) => match command_of(text) {
                    None => stop,
                    Some((rows, cols)) => after_locating(
                        locator_step(LocatorState::Start, LocatorEventView::Message(segments)).1,
                        rows,
                        cols,
                        conversation,
                    ),
                },
            }
        },
        (
            PipelineState::Locating { rows, cols, conversation },
            PipelineEventView::Reply(segments),
        ) => {
            after_locating(
                locator_step(LocatorState::AwaitingReply, LocatorEventView::Reply(segments)).1,
                rows,
                cols,
                conversation,
            )
        },
        (
            PipelineState::Downloading { rows, cols, conversation },
            PipelineEventView::Downloaded,
        ) => (PipelineState::Splitting { conversation }, PipelineActionView::Split { rows, cols }),
        (PipelineState::Downloading { .. }, PipelineEventView::DownloadFailed) => (
            PipelineState::Finished,
            PipelineActionView::Notify(Notice::DownloadFailed),
        ),
        (PipelineState::Splitting { conversation }, PipelineEventView::SplitDone) => (
            PipelineState::Identifying { conversation },
            PipelineActionView::Identify,
        ),
        (PipelineState::Splitting { .. }, PipelineEventView::SplitFailed(e)) => (
            PipelineState::Finished,
            PipelineActionView::Notify(Notice::SplitFailed(e)),
        ),
        (PipelineState::Splitting { .. }, PipelineEventView::SplitCrashed) => (
            PipelineState::Finished,
            PipelineActionView::Notify(Notice::InternalError),
        ),
        (PipelineState::Identifying { conversation }, PipelineEventView::Identified) => (
            PipelineState::Finished,
            PipelineActionView::Deliver(delivery_for(conversation)),
        ),
        (PipelineState::Identifying { .. }, PipelineEventView::IdentityFailed) => (
            PipelineState::Finished,
            PipelineActionView::Notify(Notice::IdentityFailed),
        ),
        _ => stop,
    }
}

/// Goes on from a step of the locator.
fn go_on_from(action: LocatorAction, rows: u32, cols: u32, conversation: Conversation) -> (r: (
    PipelineState,
    PipelineAction,
))
    ensures
        r.0 == after_locating(action@, rows, cols, conversation).0,
        r.1@ == after_locating(action@, rows, cols, conversation).1,
{
    match action {
        LocatorAction::Found(url) => (
            PipelineState::Downloading { rows, cols, conversation },
            PipelineAction::Download { rows, cols, url },
        ),
        LocatorAction::Lookup(id) => (
            PipelineState::Locating { rows, cols, conversation },
            PipelineAction::Lookup(id),
        ),
        LocatorAction::NotFound => (PipelineState::Finished, PipelineAction::Stop),
    }
}

/// Takes the work on a message one step further: from the state of the
/// work and the event that has come in to the next state and the action to
/// take.
pub fn handle_event(state: PipelineState, event: PipelineEvent) -> (r: (
    PipelineState,
    PipelineAction,
))
    ensures
        r.0 == pipeline_step(state, event@).0,
        r.1@ == pipeline_step(state, event@).1,
{
    match state {
        PipelineState::Idle => match event {
            PipelineEvent::Message { text, segments, conversation } => {
                let text = match text {
                    Some(text) => text,
                    None => {
                        return (PipelineState::Finished, PipelineAction::Stop);
                    },
                };
                match parse_command(text.as_str()) {
                    None => (PipelineState::Finished, PipelineAction::Stop),
                    Some((rows, cols)) => {
                        let located = get_image_url(
                            LocatorState::Start,
                            LocatorEvent::Message(segments),
                        );
                        go_on_from(located.1, rows, cols, conversation)
                    },
                }
            },
            _ => (PipelineState::Finished, PipelineAction::Stop),
        },
        PipelineState::Locating { rows, cols, conversation } => match event {
            PipelineEvent::Reply(segments) => {
                let located = get_image_url(
                    LocatorState::AwaitingReply,
                    LocatorEvent::Reply(segments),
                );
                go_on_from(located.1, rows, cols, conversation)
            },
            _ => (PipelineState::Finished, PipelineAction::Stop),
        },
        PipelineState::Downloading { rows, cols, conversation } => match event {
            PipelineEvent::Downloaded => (
                PipelineState::Splitting { conversation },
                PipelineAction::Split { rows, cols },
            ),
            PipelineEvent::DownloadFailed => (
                PipelineState::Finished,
                PipelineAction::Notify(Notice::DownloadFailed),
            ),
            _ => (PipelineState::Finished, PipelineAction::Stop),
        },
        PipelineState::Splitting { conversation } => match event {
            PipelineEvent::SplitDone => (
                PipelineState::Identifying { conversation },
                PipelineAction::Identify,
            ),
            PipelineEvent::SplitFailed(e) => (
                PipelineState::Finished,
                PipelineAction::Notify(Notice::SplitFailed(e)),
            ),
            PipelineEvent::SplitCrashed => (
                PipelineState::Finished,
                PipelineAction::Notify(Notice::InternalError),
            ),
            _ => (PipelineState::Finished, PipelineAction::Stop),
        },
        PipelineState::Identifying { conversation } => match event {
            PipelineEvent::Identified => (
                PipelineState::Finished,
                PipelineAction::Deliver(choose_delivery(conversation)),
            ),
            PipelineEvent::IdentityFailed => (
                PipelineState::Finished,
                PipelineAction::Notify(Notice::IdentityFailed),
            ),
            _ => (PipelineState::Finished, PipelineAction::Stop),
        },
        PipelineState::Finished => (PipelineState::Finished, PipelineAction::Stop),
    }
}

/// A message that is no command starts nothing: whatever else it holds, the
/// work is over at once and nothing is done or said.
pub proof fn law_other_messages_are_passed_over(
    text: Option<Seq<char>>,
    segments: Seq<SegmentView>,
    conversation: Conversation,
)
    requires
        text matches Some(t) ==> command_of(t) is None,
    ensures
        pipeline_step(
            PipelineState::Idle,
            PipelineEventView::Message { text, segments, conversation },
        ) == (PipelineState::Finished, PipelineActionView::Stop),
{
}

/// A command without a picture starts nothing: where the message holds no
/// picture and answers no earlier message, nothing is fetched and nothing is
/// sent.
pub proof fn law_command_without_picture_is_passed_over(
    text: Option<Seq<char>>,
    segments: Seq<SegmentView>,
    conversation: Conversation,
)
    requires
        first_image_url(segments) is None,
        first_reply_id(segments) is None,
    ensures
        pipeline_step(
            PipelineState::Idle,
            PipelineEventView::Message { text, segments, conversation },
        ) == (PipelineState::Finished, PipelineActionView::Stop),
{
}

/// How many waits a state has before it at most.
pub open spec fn waits_left(state: PipelineState) -> nat {
    match state {
        PipelineState::Idle => 5,
        PipelineState::Locating { .. } => 4,
        PipelineState::Downloading { .. } => 3,
        PipelineState::Splitting { .. } => 2,
        PipelineState::Identifying { .. } => 1,
        PipelineState::Finished => 0,
    }
}

/// The actions that end the work: to stop, to tell of a failure, to send
/// the tiles.
pub open spec fn ends_the_work(action: PipelineActionView) -> bool {
    action is Stop || action is Notify || action is Deliver
}

/// Every step goes forward, so the work on a message is over after five
/// steps at most; and the work is over exactly when the action is one that
/// ends it, so whoever takes the actions knows when to leave off.
pub proof fn law_every_step_goes_forward(state: PipelineState, event: PipelineEventView)
    ensures
        state != PipelineState::Finished ==> waits_left(pipeline_step(state, event).0)
            < waits_left(state),
        pipeline_step(state, event).0 == PipelineState::Finished <==> ends_the_work(
            pipeline_step(state, event).1,
        ),
{
}

/// Work that is over stays over: no event sets it going again.
pub proof fn law_finished_is_final(event: PipelineEventView)
    ensures
        pipeline_step(PipelineState::Finished, event) == (
            PipelineState::Finished,
            PipelineActionView::Stop,
        ),
{
}

} // verus!
