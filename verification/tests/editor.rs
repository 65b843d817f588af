use crossterm::event::{KeyCode, KeyEvent, KeyModifiers};
use cryptfm::cipher::decrypt_binary;
use cryptfm::editor::{join_lines, Editor};
use cryptfm::error::Error;

fn key(code: KeyCode) -> KeyEvent {
    KeyEvent::new(code, KeyModifiers::NONE)
}

fn press(editor: &mut Editor, code: KeyCode) -> bool {
    match editor.get_textarea_mut() {
        Some(buffer) => buffer.input(key(code)),
        None => false,
    }
}

fn type_text(editor: &mut Editor, text: &str) {
    for c in text.chars() {
        if c == '\n' {
            press(editor, KeyCode::Enter);
        } else {
            press(editor, KeyCode::Char(c));
        }
    }
}

fn lines(editor: &Editor) -> Option<Vec<String>> {
    editor.get_textarea_ref().map(|buffer| buffer.lines())
}

fn cursor(editor: &Editor) -> Option<(usize, usize)> {
    editor.get_textarea_ref().map(|buffer| buffer.cursor())
}

#[test]
fn an_editor_does_not_take_a_short_key() {
    assert_eq!(Editor::new("abcd").err(), Some(Error::InvalidKey));
    assert_eq!(Editor::new("").err(), Some(Error::InvalidKey));
    assert_eq!(Editor::new("üü").err(), Some(Error::InvalidKey));
    assert!(Editor::new("abcde").is_ok());
    assert!(Editor::new("üüa").is_ok());
}

#[test]
fn a_new_editor_has_no_buffer() {
    let editor = Editor::new("abcde").unwrap();
    assert!(!editor.is_editing());
    assert!(editor.get_textarea_ref().is_none());
    assert_eq!(lines(&editor), None);
    assert_eq!(cursor(&editor), None);
}

#[test]
fn init_gives_a_buffer_of_one_empty_line() {
    let mut editor = Editor::new("abcde").unwrap();
    editor.init();
    assert!(editor.is_editing());
    assert_eq!(lines(&editor), Some(vec![String::new()]));
    assert_eq!(cursor(&editor), Some((0, 0)));
}

#[test]
fn keys_go_into_the_buffer() {
    let mut editor = Editor::new("abcde").unwrap();
    editor.init();
    assert!(press(&mut editor, KeyCode::Char('h')));
    assert!(press(&mut editor, KeyCode::Char('i')));
    assert_eq!(lines(&editor), Some(vec![String::from("hi")]));
    assert_eq!(cursor(&editor), Some((0, 2)));
    assert!(press(&mut editor, KeyCode::Enter));
    assert!(press(&mut editor, KeyCode::Char('!')));
    assert_eq!(lines(&editor), Some(vec![String::from("hi"), String::from("!")]));
    assert!(press(&mut editor, KeyCode::Backspace));
    assert_eq!(lines(&editor), Some(vec![String::from("hi"), String::new()]));
}

#[test]
fn input_says_whether_the_text_has_changed() {
    let mut editor = Editor::new("abcde").unwrap();
    editor.init();
    let keys = [
        KeyCode::Backspace,
        KeyCode::Left,
        KeyCode::Char('a'),
        KeyCode::Char('b'),
        KeyCode::Left,
        KeyCode::Up,
        KeyCode::Home,
        KeyCode::Backspace,
        KeyCode::Delete,
        KeyCode::Enter,
        KeyCode::Down,
        KeyCode::End,
        KeyCode::Delete,
        KeyCode::Backspace,
        KeyCode::Backspace,
        KeyCode::Esc,
        KeyCode::F(1),
        KeyCode::Tab,
        KeyCode::PageDown,
    ];
    for code in keys {
        let before = lines(&editor);
        let changed = press(&mut editor, code);
        assert_eq!(changed, lines(&editor) != before, "{:?}", code);
    }
    for code in [KeyCode::Char('u'), KeyCode::Char('u'), KeyCode::Char('r'), KeyCode::Char('y'), KeyCode::Char('k')] {
        let before = lines(&editor);
        let changed = editor
            .get_textarea_mut()
            .unwrap()
            .input(KeyEvent::new(code, KeyModifiers::CONTROL));
        assert_eq!(changed, lines(&editor) != before, "{:?}", code);
    }
}

#[test]
fn keys_that_only_move_leave_the_text() {
    let mut editor = Editor::new("abcde").unwrap();
    editor.init();
    type_text(&mut editor, "ab\ncd");
    assert_eq!(cursor(&editor), Some((1, 2)));
    assert!(!press(&mut editor, KeyCode::Left));
    assert_eq!(cursor(&editor), Some((1, 1)));
    assert!(!press(&mut editor, KeyCode::Up));
    assert_eq!(cursor(&editor), Some((0, 1)));
    assert!(!press(&mut editor, KeyCode::Home));
    assert_eq!(cursor(&editor), Some((0, 0)));
    assert_eq!(lines(&editor), Some(vec![String::from("ab"), String::from("cd")]));
    // At the very start there is nothing to take away.
    assert!(!press(&mut editor, KeyCode::Backspace));
    assert_eq!(lines(&editor), Some(vec![String::from("ab"), String::from("cd")]));
}

#[test]
fn the_cursor_is_asked_of_the_buffer_each_time() {
    let mut editor = Editor::new("abcde").unwrap();
    editor.init();
    type_text(&mut editor, "xyz");
    assert_eq!(cursor(&editor), Some((0, 3)));
    assert_eq!(cursor(&editor), cursor(&editor));
    press(&mut editor, KeyCode::Enter);
    assert_eq!(cursor(&editor), Some((1, 0)));
}

#[test]
fn without_a_buffer_keys_go_nowhere() {
    let mut editor = Editor::new("abcde").unwrap();
    assert!(editor.get_textarea_mut().is_none());
    assert!(!press(&mut editor, KeyCode::Char('h')));
    assert!(!editor.is_editing());
    assert_eq!(editor.finish().unwrap(), "");
}

#[test]
fn finish_gives_the_text_and_takes_the_buffer() {
    let mut editor = Editor::new("abcde").unwrap();
    editor.init();
    type_text(&mut editor, "hello");
    assert_eq!(editor.finish().unwrap(), "hello");
    assert!(!editor.is_editing());
    assert_eq!(editor.finish().unwrap(), "");
}

#[test]
fn finish_joins_lines_with_line_feeds() {
    let mut editor = Editor::new("abcde").unwrap();
    editor.init();
    type_text(&mut editor, "one\ntwo\n\nfour");
    assert_eq!(editor.finish().unwrap(), "one\ntwo\n\nfour");
}

#[test]
fn finish_of_an_untouched_buffer_is_empty() {
    let mut editor = Editor::new("abcde").unwrap();
    editor.init();
    assert_eq!(editor.finish().unwrap(), "");
}

#[test]
fn finish_without_a_buffer_is_empty() {
    let mut editor = Editor::new("abcde").unwrap();
    assert_eq!(editor.finish().unwrap(), "");
    assert_eq!(editor.finish_encrypt().unwrap(), Vec::<u8>::new());
}

#[test]
fn finish_encrypt_gives_the_encoded_text_and_takes_the_buffer() {
    let mut editor = Editor::new("abcde").unwrap();
    editor.init();
    type_text(&mut editor, "secret");
    let bytes = editor.finish_encrypt().unwrap();
    assert_eq!(bytes, vec![212, 199, 198, 214, 202, 213]);
    assert!(!editor.is_editing());
    assert_eq!(editor.finish_encrypt().unwrap(), Vec::<u8>::new());
}

#[test]
fn finish_encrypt_of_several_lines_reads_back() {
    let mut editor = Editor::new("long enough").unwrap();
    editor.init();
    type_text(&mut editor, "first\nsecond");
    let bytes = editor.finish_encrypt().unwrap();
    assert_eq!(decrypt_binary(&bytes, "long enough"), Some(String::from("first\nsecond")));
}

#[test]
fn init_starts_over() {
    let mut editor = Editor::new("abcde").unwrap();
    editor.init();
    type_text(&mut editor, "draft");
    editor.init();
    assert_eq!(lines(&editor), Some(vec![String::new()]));
    assert_eq!(editor.finish().unwrap(), "");
}

#[test]
fn join_lines_puts_a_line_feed_between_each_two() {
    assert_eq!(join_lines(&vec![]), "");
    assert_eq!(join_lines(&vec![String::from("a")]), "a");
    assert_eq!(join_lines(&vec![String::new()]), "");
    assert_eq!(join_lines(&vec![String::from("a"), String::from("b")]), "a\nb");
    assert_eq!(join_lines(&vec![String::new(), String::new(), String::from("c")]), "\n\nc");
    assert_eq!(join_lines(&vec![String::from("a"), String::new()]), "a\n");
}
