use bytes::Bytes;
use image_splitter::assembler::{build_forward_nodes, sender_identity, Conversation, Delivery};
use image_splitter::locator::Segment;
use image_splitter::pipeline::{handle_event, Notice, PipelineAction, PipelineEvent, PipelineState};
use image_splitter::splitter::{split_image_blocking, SplitError};
use std::io::Cursor;

fn in_group() -> Conversation {
    Conversation { group_id: Some(5000), user_id: 77 }
}

fn segment(kind: &str, url: Option<&str>, id: Option<&str>) -> Segment {
    Segment {
        kind: Some(kind.to_string()),
        url: url.map(|u| u.to_string()),
        id: id.map(|i| i.to_string()),
    }
}

fn message(text: &str, segments: Vec<Segment>, conversation: Conversation) -> PipelineEvent {
    PipelineEvent::Message { text: Some(text.to_string()), segments, conversation }
}

fn stop() -> (PipelineState, PipelineAction) {
    (PipelineState::Finished, PipelineAction::Stop)
}

#[test]
fn command_with_picture_runs_to_delivery() {
    let segments = vec![segment("text", None, None), segment("image", Some("http://a/p.png"), None)];
    let (state, action) = handle_event(PipelineState::Idle, message("裁剪 2x2", segments, in_group()));
    assert_eq!(action, PipelineAction::Download { rows: 2, cols: 2, url: "http://a/p.png".to_string() });
    assert_eq!(state, PipelineState::Downloading { rows: 2, cols: 2, conversation: in_group() });

    let (state, action) = handle_event(state, PipelineEvent::Downloaded);
    assert_eq!(action, PipelineAction::Split { rows: 2, cols: 2 });
    assert_eq!(state, PipelineState::Splitting { conversation: in_group() });

    let picture = image::RgbaImage::from_pixel(100, 100, image::Rgba([10, 20, 30, 40]));
    let mut file = Cursor::new(Vec::new());
    picture.write_to(&mut file, image::ImageFormat::Png).unwrap();
    let tiles = split_image_blocking(Bytes::from(file.into_inner()), 2, 2).unwrap();
    assert_eq!(tiles.len(), 4);

    let (state, action) = handle_event(state, PipelineEvent::SplitDone);
    assert_eq!(action, PipelineAction::Identify);
    assert_eq!(state, PipelineState::Identifying { conversation: in_group() });

    let (state, action) = handle_event(state, PipelineEvent::Identified);
    assert_eq!(action, PipelineAction::Deliver(Delivery::GroupForward(5000)));
    assert_eq!(state, PipelineState::Finished);

    let (uin, name) = sender_identity(None, Some("Kovi".to_string()));
    let nodes = build_forward_nodes(&tiles, &name, &uin);
    assert_eq!(nodes.len(), 4);
    for (node, tile) in nodes.iter().zip(&tiles) {
        assert_eq!(node.file, format!("base64://{}", tile));
        assert_eq!(node.name, "Kovi");
        assert_eq!(node.uin, "0");
    }
}

#[test]
fn command_without_picture_is_passed_over() {
    let segments = vec![segment("text", None, None)];
    assert_eq!(handle_event(PipelineState::Idle, message("切图 3*3", segments, in_group())), stop());
}

#[test]
fn command_that_answers_a_picture_looks_it_up() {
    let segments = vec![segment("reply", None, Some("321")), segment("text", None, None)];
    let private = Conversation { group_id: None, user_id: 77 };
    let (state, action) = handle_event(PipelineState::Idle, message("分割 2 2", segments, private));
    assert_eq!(action, PipelineAction::Lookup(321));
    assert_eq!(state, PipelineState::Locating { rows: 2, cols: 2, conversation: private });

    let earlier = vec![segment("image", Some("http://a/old.png"), None)];
    let (state, action) = handle_event(state, PipelineEvent::Reply(earlier));
    assert_eq!(action, PipelineAction::Download { rows: 2, cols: 2, url: "http://a/old.png".to_string() });
    assert_eq!(state, PipelineState::Downloading { rows: 2, cols: 2, conversation: private });

    let (state, _) = handle_event(state, PipelineEvent::Downloaded);
    let (state, _) = handle_event(state, PipelineEvent::SplitDone);
    let (state, action) = handle_event(state, PipelineEvent::Identified);
    assert_eq!(action, PipelineAction::Deliver(Delivery::PrivateForward(77)));
    assert_eq!(state, PipelineState::Finished);
}

#[test]
fn plain_text_is_passed_over() {
    let segments = vec![segment("text", None, None), segment("image", Some("http://a/p.png"), None)];
    assert_eq!(handle_event(PipelineState::Idle, message("hello", segments, in_group())), stop());
}

#[test]
fn message_without_text_is_passed_over() {
    let segments = vec![segment("image", Some("http://a/p.png"), None)];
    let event = PipelineEvent::Message { text: None, segments, conversation: in_group() };
    assert_eq!(handle_event(PipelineState::Idle, event), stop());
}

#[test]
fn reply_without_picture_is_passed_over() {
    let state = PipelineState::Locating { rows: 2, cols: 2, conversation: in_group() };
    assert_eq!(handle_event(state, PipelineEvent::Reply(vec![segment("text", None, None)])), stop());
    assert_eq!(handle_event(state, PipelineEvent::ReplyFailed), stop());
}

#[test]
fn failed_download_is_told() {
    let state = PipelineState::Downloading { rows: 2, cols: 2, conversation: in_group() };
    assert_eq!(
        handle_event(state, PipelineEvent::DownloadFailed),
        (PipelineState::Finished, PipelineAction::Notify(Notice::DownloadFailed))
    );
}

#[test]
fn failed_split_is_told_with_its_reason() {
    let state = PipelineState::Splitting { conversation: in_group() };
    for error in [
        SplitError::GridTooLarge,
        SplitError::InvalidGrid,
        SplitError::Decode,
        SplitError::ImageTooSmall,
        SplitError::Encode,
    ] {
        assert_eq!(
            handle_event(state, PipelineEvent::SplitFailed(error)),
            (PipelineState::Finished, PipelineAction::Notify(Notice::SplitFailed(error)))
        );
    }
    assert_eq!(
        handle_event(state, PipelineEvent::SplitCrashed),
        (PipelineState::Finished, PipelineAction::Notify(Notice::InternalError))
    );
}

#[test]
fn failed_identity_is_told() {
    let state = PipelineState::Identifying { conversation: in_group() };
    assert_eq!(
        handle_event(state, PipelineEvent::IdentityFailed),
        (PipelineState::Finished, PipelineAction::Notify(Notice::IdentityFailed))
    );
}

#[test]
fn delivery_without_group_or_sender_is_inline() {
    let nobody = Conversation { group_id: None, user_id: 0 };
    let state = PipelineState::Identifying { conversation: nobody };
    assert_eq!(
        handle_event(state, PipelineEvent::Identified),
        (PipelineState::Finished, PipelineAction::Deliver(Delivery::Inline))
    );
}

#[test]
fn command_that_the_policy_refuses_is_still_started() {
    let segments = vec![segment("image", Some("u"), None)];
    let (state, action) = handle_event(PipelineState::Idle, message("裁剪 11x0", segments, in_group()));
    assert_eq!(action, PipelineAction::Download { rows: 11, cols: 0, url: "u".to_string() });
    let (_, action) = handle_event(state, PipelineEvent::Downloaded);
    assert_eq!(action, PipelineAction::Split { rows: 11, cols: 0 });
    assert_eq!(split_image_blocking(Bytes::new(), 11, 0), Err(SplitError::GridTooLarge));
}

#[test]
fn finished_work_stays_finished() {
    for event in [
        PipelineEvent::Downloaded,
        PipelineEvent::SplitDone,
        PipelineEvent::Identified,
        PipelineEvent::ReplyFailed,
        PipelineEvent::Reply(vec![segment("image", Some("u"), None)]),
        message("裁剪 2x2", vec![segment("image", Some("u"), None)], in_group()),
    ] {
        assert_eq!(handle_event(PipelineState::Finished, event), stop());
    }
}

#[test]
fn events_out_of_turn_end_the_work() {
    let downloading = PipelineState::Downloading { rows: 2, cols: 2, conversation: in_group() };
    assert_eq!(handle_event(PipelineState::Idle, PipelineEvent::Downloaded), stop());
    assert_eq!(handle_event(downloading, PipelineEvent::SplitDone), stop());
    assert_eq!(handle_event(downloading, PipelineEvent::Identified), stop());
    let splitting = PipelineState::Splitting { conversation: in_group() };
    assert_eq!(handle_event(splitting, PipelineEvent::Downloaded), stop());
    let identifying = PipelineState::Identifying { conversation: in_group() };
    assert_eq!(handle_event(identifying, PipelineEvent::SplitDone), stop());
}

#[test]
fn longest_run_takes_five_steps() {
    let segments = vec![segment("reply", None, Some("9"))];
    let events = vec![
        message("裁剪 3x3", segments, in_group()),
        PipelineEvent::Reply(vec![segment("image", Some("u"), None)]),
        PipelineEvent::Downloaded,
        PipelineEvent::SplitDone,
        PipelineEvent::Identified,
    ];
    let mut state = PipelineState::Idle;
    let mut actions = Vec::new();
    for event in events {
        assert_ne!(state, PipelineState::Finished);
        let (next, action) = handle_event(state, event);
        state = next;
        actions.push(action);
    }
    assert_eq!(state, PipelineState::Finished);
    assert_eq!(
        actions,
        vec![
            PipelineAction::Lookup(9),
            PipelineAction::Download { rows: 3, cols: 3, url: "u".to_string() },
            PipelineAction::Split { rows: 3, cols: 3 },
            PipelineAction::Identify,
            PipelineAction::Deliver(Delivery::GroupForward(5000)),
        ]
    );
}
