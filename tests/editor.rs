use furnace_core::editor::{Key, Readline};

fn line_a(cursor_at_end: bool) -> Readline {
    let mut rl = Readline::new();
    rl.handle_key(Key::Unicode('a'));
    if !cursor_at_end {
        rl.handle_key(Key::ArrowDown);
    }
    rl
}

#[test]
fn test_one_key_unicode() {
    let mut rl = Readline::new();
    rl.handle_key(Key::Unicode('a'));
    assert_eq!(rl.text(), "a");
    assert_eq!(rl.pos(), 1);
}

#[test]
fn test_one_key_insert_unicode() {
    let mut rl = Readline::new();
    rl.handle_key(Key::Unicode('a'));
    rl.handle_key(Key::Unicode('a'));
    rl.handle_key(Key::ArrowLeft);
    rl.handle_key(Key::Unicode('b'));
    assert_eq!(rl.pos(), 2);
    assert_eq!(rl.text(), "aba");
}

#[test]
fn test_left_empty_buf() {
    let mut rl = Readline::new();
    rl.handle_key(Key::ArrowLeft);
    assert_eq!(rl.pos(), 0);
}

#[test]
fn test_right_empty_buf() {
    let mut rl = Readline::new();
    rl.handle_key(Key::ArrowRight);
    assert_eq!(rl.pos(), 0);
}

#[test]
fn test_up_empty_buf() {
    let mut rl = Readline::new();
    rl.handle_key(Key::ArrowUp);
    assert_eq!(rl.pos(), 0);
}

#[test]
fn test_down_empty_buf() {
    let mut rl = Readline::new();
    rl.handle_key(Key::ArrowDown);
    assert_eq!(rl.pos(), 0);
}

#[test]
fn test_left() {
    let mut rl = line_a(true);
    rl.handle_key(Key::ArrowLeft);
    assert_eq!(rl.pos(), 0);
}

#[test]
fn test_right() {
    let mut rl = line_a(false);
    rl.handle_key(Key::ArrowRight);
    assert_eq!(rl.pos(), 1);
}

#[test]
fn test_right_full_buf() {
    let mut rl = Readline::new();
    for _ in 0..80 {
        rl.handle_key(Key::Unicode('a'));
    }
    assert_eq!(rl.pos(), 80);
    rl.handle_key(Key::ArrowRight);
    assert_eq!(rl.pos(), 80);
}

#[test]
fn test_up() {
    let mut rl = line_a(false);
    rl.handle_key(Key::ArrowUp);
    assert_eq!(rl.pos(), 1);
}

#[test]
fn test_down() {
    let mut rl = line_a(true);
    rl.handle_key(Key::ArrowDown);
    assert_eq!(rl.pos(), 0);
}

#[test]
fn test_newline() {
    let mut rl = line_a(false);
    let res = rl.handle_key(Key::Unicode('\n')).unwrap();
    assert_eq!(&res, "a");
    assert_eq!(rl.text(), "");
    assert_eq!(rl.pos(), 0);
}

#[test]
fn test_newline_empty_buf() {
    let mut rl = Readline::new();
    let res = rl.handle_key(Key::Unicode('\n')).unwrap();
    assert!(res.is_empty());
}

#[test]
fn test_backspace() {
    let mut rl = line_a(true);
    rl.handle_key(Key::Unicode('\u{8}'));
    assert_eq!(rl.text(), "");
    assert_eq!(rl.pos(), 0);
}

#[test]
fn test_backspace_empty_buf() {
    let mut rl = Readline::new();
    rl.handle_key(Key::Unicode('\u{8}'));
    assert_eq!(rl.pos(), 0);
}

#[test]
fn test_delete() {
    let mut rl = line_a(false);
    rl.handle_key(Key::Unicode('\u{7f}'));
    assert_eq!(rl.text(), "");
    assert_eq!(rl.pos(), 0);
}

#[test]
fn test_delete_empty_buf() {
    let mut rl = Readline::new();
    rl.handle_key(Key::Unicode('\u{7f}'));
    assert_eq!(rl.pos(), 0);
}

#[test]
fn backspace_in_the_middle_removes_character_before_cursor() {
    let mut rl = Readline::new();
    for c in ['a', 'b', 'c'] {
        rl.handle_key(Key::Unicode(c));
    }
    rl.handle_key(Key::ArrowLeft);
    rl.handle_key(Key::Unicode('\u{8}'));
    assert_eq!(rl.text(), "ac");
    assert_eq!(rl.pos(), 1);
    rl.handle_key(Key::Other);
    rl.handle_key(Key::Unicode('\t'));
    assert_eq!(rl.text(), "ac");
    assert_eq!(rl.pos(), 1);
}
