//! The image locator: where the picture of a command is.
//!
//! A picture in the message itself comes first. Where there is none, the
//! message may answer an earlier one, and the picture is looked for there.
//! Fetching the earlier message is not done here: the locator says which
//! message it needs and goes on when it is handed over, so each call of
//! [`get_image_url`] takes one event and gives one action.

use crate::text::{all_ascii_digits, chars_of, decimal_value, read_decimal};
use vstd::prelude::*;
use vstd::slice::slice_subrange;
use vstd::string::StringExecFns;

verus! {

/// One segment of a message: its kind and, of its data, the two fields that
/// the locator reads. A field is absent where the data has no text under
/// its key.
#[derive(Debug, PartialEq, Eq)]
pub struct Segment {
    /// The kind tag, such as `text`, `image` or `reply`.
    pub kind: Option<String>,
    /// The text under the key `url`.
    pub url: Option<String>,
    /// The text under the key `id`.
    pub id: Option<String>,
}

/// A segment as a value of mathematics.
pub struct SegmentView {
    pub kind: Option<Seq<char>>,
    pub url: Option<Seq<char>>,
    pub id: Option<Seq<char>>,
}

/// The view of an optional string.
pub open spec fn text_of(s: Option<String>) -> Option<Seq<char>> {
    match s {
        Some(s) => Some(s@),
        None => None,
    }
}

impl View for Segment {
    type V = SegmentView;

    open spec fn view(&self) -> SegmentView {
        SegmentView { kind: text_of(self.kind), url: text_of(self.url), id: text_of(self.id) }
    }
}

/// The views of the segments of a message, in order.
pub open spec fn segments_of(message: Seq<Segment>) -> Seq<SegmentView> {
    Seq::new(message.len(), |k: int| message[k]@)
}

/// The kind of the segments that hold a picture.
pub open spec fn image_kind() -> Seq<char> {
    seq!['i', 'm', 'a', 'g', 'e']
}

/// The kind of the segments that point to the message that is answered.
pub open spec fn reply_kind() -> Seq<char> {
    seq!['r', 'e', 'p', 'l', 'y']
}

impl SegmentView {
    /// The address of the picture that the segment holds, if it holds one.
    pub open spec fn image_url(self) -> Option<Seq<char>> {
        if self.kind == Some(image_kind()) {
            self.url
        } else {
            None
        }
    }

    /// The identifier of the message that the segment points to, if it
    /// points to one.
    pub open spec fn reply_id(self) -> Option<Seq<char>> {
        if self.kind == Some(reply_kind()) {
            self.id
        } else {
            None
        }
    }
}

/// The address of the first picture in a message.
pub open spec fn first_image_url(message: Seq<SegmentView>) -> Option<Seq<char>>
    decreases message.len(),
{
    if message.len() == 0 {
        None
    } else if message.first().image_url() is Some {
        message.first().image_url()
    } else {
        first_image_url(message.drop_first())
    }
}

/// The identifier in the first segment of a message that points to an
/// earlier one.
pub open spec fn first_reply_id(message: Seq<SegmentView>) -> Option<Seq<char>>
    decreases message.len(),
{
    if message.len() == 0 {
        None
    } else if message.first().reply_id() is Some {
        message.first().reply_id()
    } else {
        first_reply_id(message.drop_first())
    }
}

/// The number that an identifier writes: digits `0` to `9`, at least one,
/// with `+` or `-` before them or neither, and a value that an `i32` holds.
pub open spec fn message_id_of(text: Seq<char>) -> Option<i32> {
    let signed = text.len() > 0 && (text[0] == '-' || text[0] == '+');
    let digits = if signed {
        text.drop_first()
    } else {
        text
    };
    let value = if signed && text[0] == '-' {
        -(decimal_value(digits) as int)
    } else {
        decimal_value(digits) as int
    };
    if digits.len() > 0 && all_ascii_digits(digits) && i32::MIN <= value <= i32::MAX {
        Some(value as i32)
    } else {
        None
    }
}

/// How far the search has come.
#[derive(Clone, Copy, Debug, PartialEq, Eq, Structural)]
pub enum LocatorState {
    /// Nothing has been looked at yet.
    Start,
    /// The message that is answered has been asked for.
    AwaitingReply,
    /// The search is over.
    Done,
}

/// What happened: the next thing for the locator to look at.
#[derive(Debug, PartialEq, Eq)]
pub enum LocatorEvent {
    /// The message with the command has come in.
    Message(Vec<Segment>),
    /// The message that was asked for has come in.
    Reply(Vec<Segment>),
    /// The message that was asked for could not be had.
    ReplyFailed,
}

/// An event as a value of mathematics.
pub enum LocatorEventView {
    Message(Seq<SegmentView>),
    Reply(Seq<SegmentView>),
    ReplyFailed,
}

impl View for LocatorEvent {
    type V = LocatorEventView;

    open spec fn view(&self) -> LocatorEventView {
        match self {
            LocatorEvent::Message(m) => LocatorEventView::Message(segments_of(m@)),
            LocatorEvent::Reply(m) => LocatorEventView::Reply(segments_of(m@)),
            LocatorEvent::ReplyFailed => LocatorEventView::ReplyFailed,
        }
    }
}

/// What is to be done next.
#[derive(Debug, PartialEq, Eq)]
pub enum LocatorAction {
    /// The picture is at this address; the search is over.
    Found(String),
    /// There is no picture; the search is over.
    NotFound,
    /// The message with this identifier is to be fetched and handed over.
    Lookup(i32),
}

/// An action as a value of mathematics.
pub enum LocatorActionView {
    Found(Seq<char>),
    NotFound,
    Lookup(i32),
}

impl View for LocatorAction {
    type V = LocatorActionView;

    open spec fn view(&self) -> LocatorActionView {
        match self {
            LocatorAction::Found(url) => LocatorActionView::Found(url@),
            LocatorAction::NotFound => LocatorActionView::NotFound,
            LocatorAction::Lookup(id) => LocatorActionView::Lookup(*id),
        }
    }
}

/// The end of a search in one message: its first picture, or nothing.
pub open spec fn found_in(message: Seq<SegmentView>) -> LocatorActionView {
    match first_image_url(message) {
        Some(url) => LocatorActionView::Found(url),
        None => LocatorActionView::NotFound,
    }
}

/// The step that the locator takes on an event: the state it goes to and the
/// action it asks for. An event that comes out of turn ends the search with
/// nothing found.
pub open spec fn locator_step(state: LocatorState, event: LocatorEventView) -> (
    LocatorState,
    LocatorActionView,
) {
    match (state, event) {
        (LocatorState::Start, LocatorEventView::Message(message)) => {
            if first_image_url(message) is Some {
                (LocatorState::Done, found_in(message))
            } else {
                match first_reply_id(message) {
                    None => (LocatorState::Done, LocatorActionView::NotFound),
                    Some(text) => match message_id_of(text) {
                        None => (LocatorState::Done, LocatorActionView::NotFound),
                        Some(id) => (LocatorState::AwaitingReply, LocatorActionView::Lookup(id)),
                    },
                }
            }
        },
        (LocatorState::AwaitingReply, LocatorEventView::Reply(message)) => (
            LocatorState::Done,
            found_in(message),
        ),
        _ => (LocatorState::Done, LocatorActionView::NotFound),
    }
}

/// Where the picture of a message is, given what fetching an earlier
/// message gives: the first picture of the message itself, else the first
/// picture of the message that its first answering segment names.
pub open spec fn located_url(
    message: Seq<SegmentView>,
    fetch: spec_fn(i32) -> Option<Seq<SegmentView>>,
) -> Option<Seq<char>> {
    if first_image_url(message) is Some {
        first_image_url(message)
    } else {
        match first_reply_id(message) {
            None => None,
            Some(text) => match message_id_of(text) {
                None => None,
                Some(id) => match fetch(id) {
                    None => None,
                    Some(reply) => first_image_url(reply),
                },
            },
        }
    }
}

/// The event that follows a lookup: the message, or the failure to get it.
pub open spec fn lookup_event(fetched: Option<Seq<SegmentView>>) -> LocatorEventView {
    match fetched {
        Some(reply) => LocatorEventView::Reply(reply),
        None => LocatorEventView::ReplyFailed,
    }
}

/// The action that ends a search with `url`.
pub open spec fn ending(url: Option<Seq<char>>) -> LocatorActionView {
    match url {
        Some(url) => LocatorActionView::Found(url),
        None => LocatorActionView::NotFound,
    }
}

/// A search is over after one step or after two, and ends where
/// [`located_url`] says. A picture in the message itself ends it at once,
/// and no earlier message is fetched; at most one message is ever fetched.
pub proof fn law_search_ends_at_located_url(
    message: Seq<SegmentView>,
    fetch: spec_fn(i32) -> Option<Seq<SegmentView>>,
)
    ensures
        ({
            let first = locator_step(LocatorState::Start, LocatorEventView::Message(message));
            match first.1 {
                LocatorActionView::Lookup(id) => {
                    let second = locator_step(first.0, lookup_event(fetch(id)));
                    &&& first_image_url(message) is None
                    &&& second.0 == LocatorState::Done
                    &&& second.1 == ending(located_url(message, fetch))
                },
                other => first.0 == LocatorState::Done && other == ending(
                    located_url(message, fetch),
                ),
            }
        }),
{
}

/// Tells whether `kind` is the kind `name`.
fn is_kind(kind: &Option<String>, name: &str) -> (r: bool)
    ensures
        r == (text_of(*kind) == Some(name@)),
{
    match kind {
        Some(kind) => *kind == String::from_str(name),
        None => false,
    }
}

/// Finds the address of the first picture in a message.
pub fn find_image_url(message: &Vec<Segment>) -> (r: Option<String>)
    ensures
        text_of(r) == first_image_url(segments_of(message@)),
{
    let ghost all = segments_of(message@);
    let mut k: usize = 0;
    assert(all.skip(0) =~= all);
    while k < message.len()
        invariant
            0 <= k <= message@.len(),
            all == segments_of(message@),
            first_image_url(all) == first_image_url(all.skip(k as int)),
        decreases message@.len() - k,
    {
        proof {
            reveal_strlit("image");
            assert(all.skip(k as int).drop_first() =~= all.skip(k as int + 1));
            assert("image"@ =~= image_kind());
        }
        if is_kind(&message[k].kind, "image") {
            match &message[k].url {
                Some(url) => {
                    return Some(url.clone());
                },
                None => {},
            }
        }
        k = k + 1;
    }
    None
}

/// Finds the identifier in the first segment of a message that points to an
/// earlier one.
pub fn find_reply_id(message: &Vec<Segment>) -> (r: Option<String>)
    ensures
        text_of(r) == first_reply_id(segments_of(message@)),
{
    let ghost all = segments_of(message@);
    let mut k: usize = 0;
    assert(all.skip(0) =~= all);
    while k < message.len()
        invariant
            0 <= k <= message@.len(),
            all == segments_of(message@),
            first_reply_id(all) == first_reply_id(all.skip(k as int)),
        decreases message@.len() - k,
    {
        proof {
            reveal_strlit("reply");
            assert(all.skip(k as int).drop_first() =~= all.skip(k as int + 1));
            assert("reply"@ =~= reply_kind());
        }
        if is_kind(&message[k].kind, "reply") {
            match &message[k].id {
                Some(id) => {
                    return Some(id.clone());
                },
                None => {},
            }
        }
        k = k + 1;
    }
    None
}

/// Reads the identifier of a message.
pub fn read_message_id(text: &str) -> (r: Option<i32>)
    ensures
        r == message_id_of(text@),
{
    let chars = chars_of(text);
    let n = chars.len();
    if n == 0 {
        return None;
    }
    let first = chars[0];
    if first == '-' || first == '+' {
        let digits = slice_subrange(chars.as_slice(), 1, n);
        if n == 1 {
            return None;
        }
        if first == '-' {
            match read_decimal(digits, 0x8000_0000) {
                Some(value) => Some((0 - value as i64) as i32),
                None => None,
            }
        } else {
            match read_decimal(digits, 0x7fff_ffff) {
                Some(value) => Some(value as i32),
                None => None,
            }
        }
    } else {
        match read_decimal(chars.as_slice(), 0x7fff_ffff) {
            Some(value) => Some(value as i32),
            None => None,
        }
    }
}

/// Takes the search for the picture one step further.
///
/// The first event is the message with the command. A picture in it ends
/// the search. Without one, the first segment that answers an earlier
/// message says which message to fetch; the event after that hands it
/// over, or says that it could not be had, and the first picture in it, if
/// there is one, ends the search.
pub fn get_image_url(state: LocatorState, event: LocatorEvent) -> (r: (LocatorState, LocatorAction))
    ensures
        r.0 == locator_step(state, event@).0,
        r.1@ == locator_step(state, event@).1,
{
    match (state, event) {
        (LocatorState::Start, LocatorEvent::Message(message)) => {
            match find_image_url(&message) {
                Some(url) => (LocatorState::Done, LocatorAction::Found(url)),
                None => match find_reply_id(&message) {
                    None => (LocatorState::Done, LocatorAction::NotFound),
                    Some(text) => match read_message_id(text.as_str()) {
                        None => (LocatorState::Done, LocatorAction::NotFound),
                        Some(id) => (LocatorState::AwaitingReply, LocatorAction::Lookup(id)),
                    },
                },
            }
        },
        (LocatorState::AwaitingReply, LocatorEvent::Reply(message)) => {
            match find_image_url(&message) {
                Some(url) => (LocatorState::Done, LocatorAction::Found(url)),
                None => (LocatorState::Done, LocatorAction::NotFound),
            }
        },
        _ => (LocatorState::Done, LocatorAction::NotFound),
    }
}

} // verus!
