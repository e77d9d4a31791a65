use mychip8::chip8::keyboard::{KeyBoard, KEY_COUNT};

#[test]
fn keypad_has_sixteen_keys() {
    assert_eq!(KEY_COUNT, 16);
}

#[test]
fn new_keypad_has_every_key_up() {
    let keyboard = KeyBoard::new();
    for key in 0..16 {
        assert!(!keyboard.check_key(key));
    }
}

#[test]
fn default_keypad_has_every_key_up() {
    let keyboard = KeyBoard::default();
    for key in 0..16 {
        assert!(!keyboard.check_key(key));
    }
}

#[test]
fn press_and_release_set_the_key() {
    let mut keyboard = KeyBoard::new();
    keyboard.press_key(0xA);
    assert!(keyboard.check_key(0xA));
    assert!(!keyboard.check_key(0xB));
    keyboard.press_key(0xA);
    assert!(keyboard.check_key(0xA));
    keyboard.release_key(0xA);
    assert!(!keyboard.check_key(0xA));
    keyboard.release_key(0xA);
    assert!(!keyboard.check_key(0xA));
}

#[test]
fn keys_are_independent() {
    let mut keyboard = KeyBoard::new();
    keyboard.press_key(0);
    keyboard.press_key(15);
    keyboard.release_key(0);
    assert!(!keyboard.check_key(0));
    assert!(keyboard.check_key(15));
}

#[test]
fn first_poll_starts_the_wait() {
    let mut keyboard = KeyBoard::new();
    assert_eq!(keyboard.wait_key_press(), None);
}

#[test]
fn polls_with_no_key_hand_out_nothing() {
    let mut keyboard = KeyBoard::new();
    for _ in 0..5 {
        assert_eq!(keyboard.wait_key_press(), None);
    }
}

#[test]
fn a_press_after_the_wait_started_is_handed_out() {
    let mut keyboard = KeyBoard::new();
    assert_eq!(keyboard.wait_key_press(), None);
    keyboard.press_key(5);
    assert_eq!(keyboard.wait_key_press(), Some(5));
}

#[test]
fn handing_out_a_key_ends_the_wait() {
    let mut keyboard = KeyBoard::new();
    assert_eq!(keyboard.wait_key_press(), None);
    keyboard.press_key(5);
    assert_eq!(keyboard.wait_key_press(), Some(5));
    // the next poll starts a new wait, and the key is still down
    assert!(keyboard.check_key(5));
    assert_eq!(keyboard.wait_key_press(), None);
    assert_eq!(keyboard.wait_key_press(), None);
    keyboard.press_key(6);
    assert_eq!(keyboard.wait_key_press(), Some(6));
}

#[test]
fn a_press_before_the_wait_started_does_not_count() {
    let mut keyboard = KeyBoard::new();
    keyboard.press_key(3);
    assert_eq!(keyboard.wait_key_press(), None);
    assert_eq!(keyboard.wait_key_press(), None);
    assert!(keyboard.check_key(3));
}

#[test]
fn a_key_let_go_before_the_poll_does_not_count() {
    let mut keyboard = KeyBoard::new();
    assert_eq!(keyboard.wait_key_press(), None);
    keyboard.press_key(7);
    keyboard.release_key(7);
    assert_eq!(keyboard.wait_key_press(), None);
    assert!(!keyboard.check_key(7));
    // the wait goes on
    keyboard.press_key(8);
    assert_eq!(keyboard.wait_key_press(), Some(8));
}

#[test]
fn letting_go_of_another_key_keeps_the_capture() {
    let mut keyboard = KeyBoard::new();
    keyboard.press_key(2);
    assert_eq!(keyboard.wait_key_press(), None);
    keyboard.press_key(7);
    keyboard.release_key(2);
    assert_eq!(keyboard.wait_key_press(), Some(7));
}

#[test]
fn the_latest_press_is_the_one_handed_out() {
    let mut keyboard = KeyBoard::new();
    assert_eq!(keyboard.wait_key_press(), None);
    keyboard.press_key(1);
    keyboard.press_key(2);
    assert_eq!(keyboard.wait_key_press(), Some(2));
}

#[test]
fn letting_go_of_an_earlier_press_keeps_the_latest() {
    let mut keyboard = KeyBoard::new();
    assert_eq!(keyboard.wait_key_press(), None);
    keyboard.press_key(1);
    keyboard.press_key(2);
    keyboard.release_key(1);
    assert_eq!(keyboard.wait_key_press(), Some(2));
}

#[test]
fn key_zero_can_be_captured() {
    let mut keyboard = KeyBoard::new();
    assert_eq!(keyboard.wait_key_press(), None);
    keyboard.press_key(0);
    assert_eq!(keyboard.wait_key_press(), Some(0));
}
