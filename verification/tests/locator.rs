use image_splitter::get_image_url;
use image_splitter::locator::{
    find_image_url, find_reply_id, read_message_id, LocatorAction, LocatorEvent, LocatorState,
    Segment,
};

fn segment(kind: &str, url: Option<&str>, id: Option<&str>) -> Segment {
    Segment {
        kind: Some(kind.to_string()),
        url: url.map(|u| u.to_string()),
        id: id.map(|i| i.to_string()),
    }
}

fn text() -> Segment {
    segment("text", None, None)
}

fn image(url: &str) -> Segment {
    segment("image", Some(url), None)
}

fn reply(id: &str) -> Segment {
    segment("reply", None, Some(id))
}

fn found(url: &str) -> (LocatorState, LocatorAction) {
    (LocatorState::Done, LocatorAction::Found(url.to_string()))
}

fn nothing() -> (LocatorState, LocatorAction) {
    (LocatorState::Done, LocatorAction::NotFound)
}

#[test]
fn picture_in_the_message_is_found_at_once() {
    let message = vec![text(), image("http://a/1.png")];
    assert_eq!(get_image_url(LocatorState::Start, LocatorEvent::Message(message)), found("http://a/1.png"));
}

#[test]
fn first_picture_wins() {
    let message = vec![image("http://a/1.png"), image("http://a/2.png")];
    assert_eq!(get_image_url(LocatorState::Start, LocatorEvent::Message(message)), found("http://a/1.png"));
}

#[test]
fn picture_without_address_is_passed_over() {
    let message = vec![segment("image", None, None), image("http://a/2.png")];
    assert_eq!(get_image_url(LocatorState::Start, LocatorEvent::Message(message)), found("http://a/2.png"));
}

#[test]
fn address_outside_a_picture_is_passed_over() {
    let message = vec![segment("file", Some("http://a/1.zip"), None), text()];
    assert_eq!(get_image_url(LocatorState::Start, LocatorEvent::Message(message)), nothing());
}

#[test]
fn picture_comes_before_reply() {
    let message = vec![reply("12"), image("http://a/1.png")];
    assert_eq!(get_image_url(LocatorState::Start, LocatorEvent::Message(message)), found("http://a/1.png"));
}

#[test]
fn no_picture_and_no_reply_finds_nothing() {
    let message = vec![text()];
    assert_eq!(get_image_url(LocatorState::Start, LocatorEvent::Message(message)), nothing());
    assert_eq!(get_image_url(LocatorState::Start, LocatorEvent::Message(Vec::new())), nothing());
}

#[test]
fn picture_in_the_message_that_is_answered_is_found() {
    let message = vec![reply("7788"), text()];
    let first = get_image_url(LocatorState::Start, LocatorEvent::Message(message));
    assert_eq!(first, (LocatorState::AwaitingReply, LocatorAction::Lookup(7788)));
    let earlier = vec![text(), image("http://a/old.png")];
    assert_eq!(get_image_url(first.0, LocatorEvent::Reply(earlier)), found("http://a/old.png"));
}

#[test]
fn reply_without_picture_ends_the_search() {
    let first = get_image_url(LocatorState::Start, LocatorEvent::Message(vec![reply("5")]));
    assert_eq!(first.1, LocatorAction::Lookup(5));
    assert_eq!(get_image_url(first.0, LocatorEvent::Reply(vec![text(), reply("4")])), nothing());
    assert_eq!(get_image_url(LocatorState::AwaitingReply, LocatorEvent::Reply(Vec::new())), nothing());
}

#[test]
fn failed_lookup_ends_the_search() {
    assert_eq!(get_image_url(LocatorState::AwaitingReply, LocatorEvent::ReplyFailed), nothing());
}

#[test]
fn identifier_that_is_no_number_ends_the_search() {
    for id in ["abc", "", "12a", " 12", "12 ", "1.5", "+", "-", "２"] {
        let message = vec![reply(id)];
        assert_eq!(get_image_url(LocatorState::Start, LocatorEvent::Message(message)), nothing(), "id {:?}", id);
    }
}

#[test]
fn identifier_out_of_range_ends_the_search() {
    for id in ["2147483648", "-2147483649", "99999999999999999999"] {
        let message = vec![reply(id)];
        assert_eq!(get_image_url(LocatorState::Start, LocatorEvent::Message(message)), nothing(), "id {:?}", id);
    }
}

#[test]
fn first_reply_with_an_identifier_decides() {
    let message = vec![segment("reply", None, None), reply("oops"), reply("3")];
    assert_eq!(get_image_url(LocatorState::Start, LocatorEvent::Message(message)), nothing());
    let message = vec![segment("reply", None, None), reply("3"), reply("4")];
    assert_eq!(
        get_image_url(LocatorState::Start, LocatorEvent::Message(message)),
        (LocatorState::AwaitingReply, LocatorAction::Lookup(3))
    );
}

#[test]
fn segment_without_kind_is_passed_over() {
    let bare = Segment { kind: None, url: Some("http://a/1.png".to_string()), id: Some("9".to_string()) };
    assert_eq!(get_image_url(LocatorState::Start, LocatorEvent::Message(vec![bare])), nothing());
}

#[test]
fn kinds_are_matched_whole() {
    let message = vec![segment("images", Some("u"), None), segment("Image", Some("u"), None), segment("", Some("u"), None)];
    assert_eq!(get_image_url(LocatorState::Start, LocatorEvent::Message(message)), nothing());
}

#[test]
fn events_out_of_turn_end_the_search() {
    assert_eq!(get_image_url(LocatorState::Start, LocatorEvent::Reply(vec![image("u")])), nothing());
    assert_eq!(get_image_url(LocatorState::Start, LocatorEvent::ReplyFailed), nothing());
    assert_eq!(get_image_url(LocatorState::AwaitingReply, LocatorEvent::Message(vec![image("u")])), nothing());
    assert_eq!(get_image_url(LocatorState::Done, LocatorEvent::Message(vec![image("u")])), nothing());
    assert_eq!(get_image_url(LocatorState::Done, LocatorEvent::Reply(vec![image("u")])), nothing());
}

#[test]
fn message_identifiers_are_read_as_the_standard_parse_reads_them() {
    let texts = [
        "0", "1", "-1", "+1", "007", "-007", "+0", "-0", "2147483647", "2147483648", "-2147483648",
        "-2147483649", "+2147483647", "+2147483648", "", "+", "-", "--1", "+-1", "1-", "1+", " 1", "1 ",
        "12345678901234567890", "-12345678901234567890", "0x10", "１２", "1e3", "-٣",
    ];
    for text in texts {
        assert_eq!(read_message_id(text), text.parse::<i32>().ok(), "text {:?}", text);
    }
    assert_eq!(read_message_id("-2147483648"), Some(i32::MIN));
    assert_eq!(read_message_id("2147483647"), Some(i32::MAX));
}

#[test]
fn find_image_url_and_find_reply_id() {
    let message = vec![text(), reply("1"), image("u1"), reply("2"), image("u2")];
    assert_eq!(find_image_url(&message), Some("u1".to_string()));
    assert_eq!(find_reply_id(&message), Some("1".to_string()));
    assert_eq!(find_image_url(&vec![text()]), None);
    assert_eq!(find_reply_id(&vec![text(), image("u")]), None);
}
