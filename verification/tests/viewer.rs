use cryptfm::cipher::encrypt_string;
use cryptfm::entity::Color;
use cryptfm::error::Error;
use cryptfm::viewer::{Viewer, ViewerEntity};

fn viewer() -> Viewer {
    Viewer::new("abcde").unwrap()
}

#[test]
fn a_key_of_four_bytes_is_invalid() {
    assert_eq!(Viewer::new("abcd").err(), Some(Error::InvalidKey));
    assert_eq!(Viewer::new("").err(), Some(Error::InvalidKey));
    // Two letters of two bytes each are four bytes.
    assert_eq!(Viewer::new("üü").err(), Some(Error::InvalidKey));
}

#[test]
fn a_key_of_five_bytes_will_do() {
    assert!(Viewer::new("abcde").is_ok());
    assert!(Viewer::new("a much longer key").is_ok());
    // Two letters of two bytes each and one more are five bytes.
    assert!(Viewer::new("üüa").is_ok());
}

#[test]
fn a_new_viewer_shows_nothing() {
    let viewer = viewer();
    assert_eq!(viewer.get_name(), None);
    assert_eq!(viewer.get_entity_ref(), &ViewerEntity::Text(String::new()));
    assert_eq!(viewer.get_scroll(), 0);
}

#[test]
fn text_is_shown_as_it_is() {
    let mut viewer = viewer();
    viewer.scroll_down(3);
    viewer.set_entity(ViewerEntity::Text(String::from("hello")), Some(String::from("a.txt")));
    assert_eq!(viewer.get_entity_ref(), &ViewerEntity::Text(String::from("hello")));
    assert_eq!(viewer.get_name(), Some(String::from("a.txt")));
    assert_eq!(viewer.get_scroll(), 0);
}

#[test]
fn decrypted_text_is_shown_as_it_is() {
    let mut viewer = viewer();
    viewer.set_entity(ViewerEntity::DecryptedText(String::from("hello")), None);
    assert_eq!(viewer.get_entity_ref(), &ViewerEntity::DecryptedText(String::from("hello")));
    assert_eq!(viewer.get_name(), None);
}

#[test]
fn binary_content_that_decodes_to_text_is_shown_decrypted() {
    let mut viewer = viewer();
    viewer.set_entity(ViewerEntity::Binary(encrypt_string("secret", "abcde")), Some(String::from("s")));
    assert_eq!(viewer.get_entity_ref(), &ViewerEntity::DecryptedText(String::from("secret")));
}

#[test]
fn binary_content_that_does_not_decode_to_text_stays_binary() {
    let mut viewer = viewer();
    let bin = vec![0x60, 0x00, 0x10];
    viewer.set_entity(ViewerEntity::Binary(bin.clone()), Some(String::from("b")));
    assert_eq!(viewer.get_entity_ref(), &ViewerEntity::Binary(bin));
    assert_eq!(viewer.get_name(), Some(String::from("b")));
}

#[test]
fn text_encoded_under_another_key_need_not_read_back() {
    let mut viewer = viewer();
    // Decoding with "abcde" what was encoded with "zzzzz" leaves bytes above 0x7f alone.
    let bin = encrypt_string("\u{7f}", "zzzzz");
    viewer.set_entity(ViewerEntity::Binary(bin.clone()), None);
    assert_eq!(viewer.get_entity_ref(), &ViewerEntity::Binary(bin));
}

#[test]
fn binary_content_that_happens_to_decode_is_taken_for_text() {
    let mut viewer = viewer();
    viewer.set_entity(ViewerEntity::Binary(vec![0xa9, 0xab]), None);
    assert_eq!(viewer.get_entity_ref(), &ViewerEntity::DecryptedText(String::from("HI")));
}

#[test]
fn scrolling_down_adds_lines() {
    let mut viewer = viewer();
    viewer.scroll_down(1);
    viewer.scroll_down(4);
    assert_eq!(viewer.get_scroll(), 5);
}

#[test]
fn scrolling_down_stops_at_the_largest_offset() {
    let mut viewer = viewer();
    viewer.scroll_down(u16::MAX - 1);
    viewer.scroll_down(1);
    assert_eq!(viewer.get_scroll(), u16::MAX);
    viewer.scroll_down(1);
    assert_eq!(viewer.get_scroll(), u16::MAX);
    let mut viewer = Viewer::new("abcde").unwrap();
    viewer.scroll_down(u16::MAX - 1);
    viewer.scroll_down(7);
    assert_eq!(viewer.get_scroll(), u16::MAX);
}

#[test]
fn scrolling_up_takes_lines_off() {
    let mut viewer = viewer();
    viewer.scroll_down(5);
    viewer.scroll_up(2);
    assert_eq!(viewer.get_scroll(), 3);
}

#[test]
fn scrolling_up_stops_at_the_top() {
    let mut viewer = viewer();
    viewer.scroll_up(1);
    assert_eq!(viewer.get_scroll(), 0);
    viewer.scroll_down(3);
    viewer.scroll_up(5);
    assert_eq!(viewer.get_scroll(), 0);
}

#[test]
fn clear_shows_nothing_again() {
    let mut viewer = viewer();
    viewer.set_entity(ViewerEntity::Binary(vec![0x60]), Some(String::from("b")));
    viewer.scroll_down(9);
    viewer.clear();
    assert_eq!(viewer.get_name(), None);
    assert_eq!(viewer.get_entity_ref(), &ViewerEntity::Text(String::new()));
    assert_eq!(viewer.get_scroll(), 0);
    // The key is still the same.
    viewer.set_entity(ViewerEntity::Binary(encrypt_string("again", "abcde")), None);
    assert_eq!(viewer.get_entity_ref(), &ViewerEntity::DecryptedText(String::from("again")));
}

#[test]
fn the_note_for_binary_content_is_not_shifted() {
    let mut viewer = viewer();
    viewer.set_entity(ViewerEntity::Text(String::from("a\nb\nc")), None);
    viewer.scroll_down(2);
    assert_eq!(viewer.shift(), 2);
    viewer.set_entity(ViewerEntity::Binary(vec![0x60]), None);
    viewer.scroll_down(2);
    assert_eq!(viewer.get_scroll(), 2);
    assert_eq!(viewer.shift(), 0);
    viewer.set_entity(ViewerEntity::Binary(vec![0xa9, 0xab]), None);
    viewer.scroll_down(3);
    assert_eq!(viewer.shift(), 3);
}

#[test]
fn title_body_and_frame_by_content() {
    let mut viewer = viewer();
    viewer.set_entity(ViewerEntity::Text(String::from("plain")), None);
    assert_eq!((viewer.title().as_str(), viewer.body().as_str(), viewer.frame()), ("Text File", "plain", Color::White));
    viewer.set_entity(ViewerEntity::DecryptedText(String::from("found")), None);
    assert_eq!((viewer.title().as_str(), viewer.body().as_str(), viewer.frame()), ("Encrypted File", "found", Color::Blue));
    viewer.set_entity(ViewerEntity::Binary(vec![0x60]), None);
    assert_eq!((viewer.title().as_str(), viewer.body().as_str(), viewer.frame()), ("Binary File", "Binary file", Color::Red));
    viewer.set_entity(ViewerEntity::Binary(vec![0x60]), Some(String::from("blob")));
    assert_eq!(viewer.title(), "blob");
}
