use chip8::display::Display;

#[test]
fn new_display_is_blank() {
    let d = Display::new();
    for y in 0..32 {
        for x in 0..64 {
            assert!(!d.pixel(x, y));
        }
    }
}

#[test]
fn row_sets_bits_msb_first() {
    let mut d = Display::new();
    let hit = d.write_row_buffer(0, 3, 0b1010_0000);
    assert!(!hit);
    assert!(d.pixel(0, 3));
    assert!(!d.pixel(1, 3));
    assert!(d.pixel(2, 3));
    assert!(!d.pixel(3, 3));
}

#[test]
fn row_wraps_at_right_edge() {
    let mut d = Display::new();
    let hit = d.write_row_buffer(60, 0, 0xFF);
    assert!(!hit);
    for x in 60..64 {
        assert!(d.pixel(x, 0));
    }
    for x in 0..4 {
        assert!(d.pixel(x, 0));
    }
    for x in 4..60 {
        assert!(!d.pixel(x, 0));
    }
    for x in 0..64 {
        assert!(!d.pixel(x, 1));
    }
}

#[test]
fn double_draw_restores_and_collides() {
    let mut d = Display::new();
    let sprite = vec![0xF0u8, 0x90, 0x90, 0x90, 0xF0];
    assert!(!d.write_sprite(10, 4, &sprite));
    assert!(d.pixel(10, 4));
    assert!(d.pixel(13, 8));
    assert!(!d.pixel(11, 5));
    assert!(d.write_sprite(10, 4, &sprite));
    for y in 0..32 {
        for x in 0..64 {
            assert!(!d.pixel(x, y));
        }
    }
}

#[test]
fn sprite_wraps_at_bottom_edge() {
    let mut d = Display::new();
    let sprite = vec![0x80u8, 0x80, 0x80];
    d.write_sprite(5, 31, &sprite);
    assert!(d.pixel(5, 31));
    assert!(d.pixel(5, 0));
    assert!(d.pixel(5, 1));
    assert!(!d.pixel(5, 2));
}

#[test]
fn collision_only_on_set_to_unset() {
    let mut d = Display::new();
    d.write_row_buffer(0, 0, 0b1000_0000);
    assert!(!d.write_row_buffer(0, 0, 0b0100_0000));
    assert!(d.write_row_buffer(0, 0, 0b1000_0000));
    assert!(!d.pixel(0, 0));
    assert!(d.pixel(1, 0));
}

#[test]
fn clear_turns_all_off() {
    let mut d = Display::new();
    d.write_row_buffer(7, 9, 0xFF);
    d.clear();
    for x in 0..64 {
        assert!(!d.pixel(x, 9));
    }
}

#[test]
fn tall_sprite_wraps_rows() {
    let mut d = Display::new();
    let sprite = vec![0x80u8; 33];
    assert!(d.write_sprite(0, 0, &sprite));
    assert!(!d.pixel(0, 0));
    for y in 1..32 {
        assert!(d.pixel(0, y));
        assert!(!d.pixel(1, y));
    }
    assert!(d.write_sprite(0, 0, &sprite));
    for y in 0..32 {
        for x in 0..64 {
            assert!(!d.pixel(x, y));
        }
    }
}
