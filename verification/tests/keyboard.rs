use chip8_core::keyboard::Keyboard;
use chip8_core::keyboard::KEY_COUNT;

#[test]
fn new_keyboard_has_no_key_down() {
    let keyboard = Keyboard::new();
    assert_eq!(KEY_COUNT, 16);
    for key in 0u8..16 {
        assert!(!keyboard.is_pressed(key));
        assert!(!keyboard.is_key_pressed(key));
    }
    assert_eq!(keyboard.get_pressed(), None);
}

#[test]
fn key_state_is_set_and_cleared() {
    let mut keyboard = Keyboard::new();
    keyboard.set_key_state(0xA, true);
    assert!(keyboard.is_pressed(0xA));
    assert!(keyboard.is_key_pressed(0xA));
    assert!(!keyboard.is_pressed(0xB));
    keyboard.set_key_state(0xA, false);
    assert!(!keyboard.is_pressed(0xA));
}

#[test]
fn lowest_key_down_is_found_first() {
    let mut keyboard = Keyboard::new();
    keyboard.set_key_state(0xF, true);
    assert_eq!(keyboard.get_pressed(), Some(0xF));
    keyboard.set_key_state(0x3, true);
    assert_eq!(keyboard.get_pressed(), Some(0x3));
    keyboard.set_key_state(0x0, true);
    assert_eq!(keyboard.get_pressed(), Some(0x0));
    keyboard.set_key_state(0x0, false);
    keyboard.set_key_state(0x3, false);
    assert_eq!(keyboard.get_pressed(), Some(0xF));
}

#[test]
fn numbers_above_fifteen_name_no_key() {
    let mut keyboard = Keyboard::new();
    keyboard.update_keys(&[true; 16]);
    assert!(keyboard.is_pressed(15));
    assert!(!keyboard.is_pressed(16));
    assert!(!keyboard.is_key_pressed(255));
}

#[test]
fn update_keys_replaces_every_state() {
    let mut keyboard = Keyboard::new();
    keyboard.set_key_state(1, true);
    let mut held = [false; 16];
    held[4] = true;
    held[9] = true;
    keyboard.update_keys(&held);
    for key in 0u8..16 {
        assert_eq!(keyboard.is_pressed(key), key == 4 || key == 9);
    }
    assert_eq!(keyboard.get_pressed(), Some(4));
}
