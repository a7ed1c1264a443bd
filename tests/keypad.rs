use chip8::keypad::Keypad;

#[test]
fn layout_maps_to_keys() {
    assert_eq!(Keypad::key_for_char('1'), Some(0x1));
    assert_eq!(Keypad::key_for_char('4'), Some(0xC));
    assert_eq!(Keypad::key_for_char('q'), Some(0x4));
    assert_eq!(Keypad::key_for_char('r'), Some(0xD));
    assert_eq!(Keypad::key_for_char('x'), Some(0x0));
    assert_eq!(Keypad::key_for_char('v'), Some(0xF));
    assert_eq!(Keypad::key_for_char('5'), None);
    assert_eq!(Keypad::key_for_char('Q'), None);
}

#[test]
fn map_key_digits() {
    assert_eq!(Keypad::map_key('1'), Some(1));
    assert_eq!(Keypad::map_key('9'), Some(9));
    assert_eq!(Keypad::map_key('0'), None);
    assert_eq!(Keypad::map_key('a'), None);
    assert_eq!(Keypad::map_key('f'), None);
}
