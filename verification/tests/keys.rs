use rmenu::event::{classify, decode, Event};
use rmenu::keymap::{is_backspace, is_escape, is_left, is_return, is_right, Keymap};

#[test]
fn steering_keys_are_told_apart() {
    assert!(is_escape(0xFF1B));
    assert!(is_return(0xFF0D));
    assert!(is_backspace(0xFF08));
    assert!(is_left(0xFF51));
    assert!(is_right(0xFF53));
    assert!(!is_escape(0xFF0D));
    assert!(!is_left(0xFF53));
}

#[test]
fn keymap_types_letters_digits_and_space() {
    let keymap = Keymap::new(vec![0x61, 0x41, 0x31, 0x21], 2, 8);
    assert_eq!(keymap.get_key(0x61), "a");
    assert_eq!(keymap.get_key(0x5a), "Z");
    assert_eq!(keymap.get_key(0x30), "0");
    assert_eq!(keymap.get_key(0x20), " ");
    assert_eq!(keymap.get_key(0x21), "");
    assert_eq!(keymap.get_key(0xFF1B), "");
}

#[test]
fn decode_goes_through_the_keyboard_tables() {
    assert_eq!(decode(0x61), Some(Event::Char('a')));
    assert_eq!(decode(0x21), Some(Event::Char('!')));
    assert_eq!(decode(0x20ac), Some(Event::Char('\u{20ac}')));
    assert_eq!(decode(0xFF0D), Some(Event::Enter));
    assert_eq!(decode(0xFFE1), None);
    assert_eq!(classify(0x61, None), None);
}

#[test]
fn keymap_finds_the_keysym_of_a_key() {
    // Two columns per keycode, keycodes from 8 on.
    let keymap = Keymap::new(vec![0x61, 0x41, 0x31, 0x21, 0xFF0D, 0xFF0D], 2, 8);
    assert_eq!(keymap.get_keysym(8, 0), 0x61);
    assert_eq!(keymap.get_keysym(8, 1), 0x41);
    assert_eq!(keymap.get_keysym(9, 0), 0x31);
    assert_eq!(keymap.get_keysym(9, 1), 0x21);
    assert_eq!(keymap.get_keysym(10, 1), 0xFF0D);
    assert_eq!(keymap.lookup(8, 1), Some(0x41));
    assert_eq!(keymap.lookup(10, 1), Some(0xFF0D));
    assert_eq!(keymap.lookup(10, 2), None);
    assert_eq!(keymap.lookup(11, 0), None);
    assert_eq!(keymap.lookup(7, 0), None);
    assert_eq!(keymap.lookup(8, 65535), None);
}

#[test]
fn keymap_events() {
    let keymap = Keymap::new(Vec::new(), 0, 0);
    assert_eq!(keymap.event(0x61), Some(Event::Char('a')));
    assert_eq!(keymap.event(0x20), Some(Event::Char(' ')));
    assert_eq!(keymap.event(0x39), Some(Event::Char('9')));
    assert_eq!(keymap.event(0x21), None);
    assert_eq!(keymap.event(0xFF1B), Some(Event::Escape));
    assert_eq!(keymap.event(0xFF0D), Some(Event::Enter));
    assert_eq!(keymap.event(0xFF08), Some(Event::Backspace));
    assert_eq!(keymap.event(0xFF51), Some(Event::Left));
    assert_eq!(keymap.event(0xFF53), Some(Event::Right));
    assert_eq!(keymap.event(0xFF52), None);
}

#[test]
fn every_typed_key_types_its_own_character() {
    let keymap = Keymap::new(Vec::new(), 0, 0);
    for keysym in 0u32..0x100 {
        let typed = keysym == 0x20
            || (0x30..=0x39).contains(&keysym)
            || (0x41..=0x5a).contains(&keysym)
            || (0x61..=0x7a).contains(&keysym);
        let expected = if typed { char::from_u32(keysym).unwrap().to_string() } else { String::new() };
        assert_eq!(keymap.get_key(keysym), expected);
    }
}

#[test]
fn steering_keys_come_before_typed_characters() {
    // The keyboard tables give a control character for each of these.
    assert_eq!(decode(0xFF1B), Some(Event::Escape));
    assert_eq!(decode(0xFF08), Some(Event::Backspace));
    assert_eq!(decode(0xFF51), Some(Event::Left));
    assert_eq!(decode(0xFF53), Some(Event::Right));
    assert_eq!(classify(0xFF0D, Some('\r')), Some(Event::Enter));
    assert_eq!(classify(0xFF1B, Some('\u{1b}')), Some(Event::Escape));
    assert_eq!(classify(0x41, Some('A')), Some(Event::Char('A')));
    // A tab is typed: it steers nothing.
    assert_eq!(decode(0xFF09), Some(Event::Char('\t')));
}
