use simp::keymap::{command_turn, key_command, Command, Key, MenuItem};

#[test]
fn next_and_previous_keys_follow_the_keybind_list() {
    assert_eq!(key_command(Key::Char('d'), false), Some(Command::Next));
    assert_eq!(key_command(Key::ArrowRight, false), Some(Command::Next));
    assert_eq!(key_command(Key::Char('a'), false), Some(Command::Previous));
    assert_eq!(key_command(Key::ArrowLeft, false), Some(Command::Previous));
}

#[test]
fn control_keys_edit_and_open() {
    assert_eq!(key_command(Key::Char('z'), true), Some(Command::Undo));
    assert_eq!(key_command(Key::Char('y'), true), Some(Command::Redo));
    assert_eq!(key_command(Key::Char('o'), true), Some(Command::Open));
    assert_eq!(key_command(Key::Char('s'), true), Some(Command::SaveAs));
    assert_eq!(key_command(Key::Char('x'), true), Some(Command::Crop));
    assert_eq!(key_command(Key::Char('q'), true), Some(Command::Exit));
}

#[test]
fn control_digits_zoom_by_hundreds() {
    assert_eq!(key_command(Key::Char('1'), true), Some(Command::Zoom(1)));
    assert_eq!(key_command(Key::Char('9'), true), Some(Command::Zoom(9)));
    assert_eq!(key_command(Key::Char('0'), true), None);
    assert_eq!(key_command(Key::Char('5'), false), None);
}

#[test]
fn rotation_keys_turn_opposite_ways() {
    let left = key_command(Key::Char('q'), false).unwrap();
    let right = key_command(Key::Char('e'), false).unwrap();
    assert_eq!(left, Command::RotateLeft);
    assert_eq!(right, Command::RotateRight);
    assert_eq!(command_turn(left), Some(-1));
    assert_eq!(command_turn(right), Some(1));
    assert_eq!(command_turn(Command::Next), None);
}

#[test]
fn plain_keys_without_a_bind_do_nothing() {
    assert_eq!(key_command(Key::Char('k'), false), None);
    assert_eq!(key_command(Key::Delete, false), Some(Command::Delete));
    assert_eq!(key_command(Key::F11, false), Some(Command::Fullscreen));
    assert_eq!(key_command(Key::Char('f'), false), Some(Command::Fullscreen));
    assert_eq!(key_command(Key::F5, false), Some(Command::Reload));
}

#[test]
fn menu_items_wait_for_an_image() {
    assert!(MenuItem::Open.is_enabled(false, false, false));
    assert!(MenuItem::About.is_enabled(false, true, false));
    assert!(!MenuItem::SaveAs.is_enabled(false, false, false));
    assert!(MenuItem::SaveAs.is_enabled(true, true, false));
    assert!(!MenuItem::Paste.is_enabled(false, false, false));
}

#[test]
fn flip_vertical_and_crop_wait_for_the_running_request() {
    assert!(!MenuItem::FlipVertical.is_enabled(true, true, true));
    assert!(MenuItem::FlipVertical.is_enabled(true, false, false));
    assert!(!MenuItem::Crop.is_enabled(true, true, false));
    assert!(MenuItem::FlipHorizontal.is_enabled(true, true, false));
}

#[test]
fn metadata_needs_some_metadata() {
    assert!(!MenuItem::Metadata.is_enabled(true, false, false));
    assert!(MenuItem::Metadata.is_enabled(true, false, true));
    assert!(!MenuItem::Metadata.is_enabled(false, false, true));
}
