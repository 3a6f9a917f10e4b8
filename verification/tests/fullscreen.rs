use ccx::fullscreen::{wrap_text, FullscreenUi, InputBuffer, KeyCode, KeyPress};

#[test]
fn input_buffer_edits_at_cursor() {
    let mut input = InputBuffer::default();
    input.insert('a');
    input.insert('c');
    input.move_left();
    input.insert('b');
    assert_eq!(input.value(), "abc");
    input.backspace();
    assert_eq!(input.value(), "ac");
}

#[test]
fn wrap_text_preserves_short_lines() {
    assert_eq!(wrap_text("hello world", 20), vec!["hello world"]);
}

#[test]
fn wrap_text_splits_words_across_lines() {
    assert_eq!(wrap_text("hello world", 7), vec!["hello", "world"]);
}

#[test]
fn wrap_text_of_empty_text_is_one_empty_line() {
    assert_eq!(wrap_text("", 10), vec![""]);
}

#[test]
fn insert_then_backspace_restores_the_buffer() {
    let mut input = InputBuffer::default();
    input.insert('x');
    input.insert('y');
    input.move_left();
    input.insert('z');
    input.backspace();
    assert_eq!(input.value(), "xy");
    input.move_home();
    input.delete();
    assert_eq!(input.value(), "y");
}

#[test]
fn blank_entries_are_not_pushed() {
    let mut ui = FullscreenUi::new();
    ui.push_user("   ".to_string());
    assert!(ui.entries.is_empty());
    ui.push_user("hi".to_string());
    assert_eq!(ui.entries.len(), 1);
    ui.clear_entries();
    assert!(ui.entries.is_empty());
}

#[test]
fn enter_key_submits_the_trimmed_input() {
    let mut ui = FullscreenUi::new();
    ui.input.insert('o');
    ui.input.insert('k');
    let out = ui.handle_key(KeyPress { code: KeyCode::Enter, control: false });
    assert_eq!(out, Some(ccx::fullscreen::FullscreenInput::Submit("ok".to_string())));
    assert_eq!(ui.input.value(), "ok");
    ui.input.clear();
    ui.input.insert(' ');
    assert_eq!(ui.handle_key(KeyPress { code: KeyCode::Enter, control: false }), None);
}

#[test]
fn long_words_stand_alone_and_other_lines_fit() {
    let lines = wrap_text("a verylongwordhere b c", 5);
    assert_eq!(lines, vec!["a".to_string(), "verylongwordhere".to_string(), "b c".to_string()]);
    for line in wrap_text("one two three four five six", 9) {
        assert!(line.chars().count() <= 9);
    }
    assert_eq!(wrap_text("", 10), vec![String::new()]);
}
