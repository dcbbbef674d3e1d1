use chip8::screen::{calc_index, Chip8Screen, ScreenError};

/// Read one pixel, panicking on out-of-range coordinates, as test shorthand.
fn pixel(screen: &Chip8Screen, x: u8, y: u8) -> bool {
    screen.get_pixel(x, y).unwrap()
}

/// Compare the whole screen against a row-major expectation.
fn assert_screen_eq(screen: &Chip8Screen, expected: &[bool; 64 * 32]) {
    for y in 0..32u8 {
        for x in 0..64u8 {
            assert_eq!(
                pixel(screen, x, y),
                expected[calc_index(x, y)],
                "pixel ({}, {}) differs",
                x,
                y
            );
        }
    }
}

#[test]
fn test_calc_index_bounds_checks_doesnt_panic() {
    _ = calc_index(0, 0);
    _ = calc_index(5, 30);
    _ = calc_index(63, 3);
    _ = calc_index(63, 31);
}

#[test]
fn test_calc_index() {
    assert_eq!(calc_index(0, 0), 0);
    assert_eq!(calc_index(1, 0), 1);
    assert_eq!(calc_index(63, 0), 63);

    assert_eq!(calc_index(0, 1), 64);
    assert_eq!(calc_index(1, 1), 65);
    assert_eq!(calc_index(63, 1), 127);

    assert_eq!(calc_index(0, 5), 5 * 64);

    assert_eq!(calc_index(63, 31), (64 * 32) - 1);
}

#[test]
fn test_draw_sprite_empty() {
    let expected_collision = false;

    let sprite: [u8; 0] = [];
    let mut screen = Chip8Screen::new();
    let collision = screen.draw_sprite(0, 0, &sprite);

    assert_eq!(collision, expected_collision);
}

#[test]
fn test_draw_sprite_simple() {
    let expected_collision = false;
    let mut expected_screen = [false; 64 * 32];
    let offset = 64 + 1; // (1, 1); y * width + x
    expected_screen[offset] = true;
    expected_screen[offset + 1] = true;
    expected_screen[offset + 2] = false;
    expected_screen[offset + 3] = false;
    expected_screen[offset + 4] = true;
    expected_screen[offset + 5] = true;
    expected_screen[offset + 6] = false;
    expected_screen[offset + 7] = false;
    let offset = offset + 64; // move down one row
    expected_screen[offset] = false;
    expected_screen[offset + 1] = false;
    expected_screen[offset + 2] = true;
    expected_screen[offset + 3] = true;
    expected_screen[offset + 4] = false;
    expected_screen[offset + 5] = false;
    expected_screen[offset + 6] = true;
    expected_screen[offset + 7] = true;

    let sprite = [0b1100_1100, 0b0011_0011];
    let mut screen = Chip8Screen::new();
    let collision = screen.draw_sprite(1, 1, &sprite);

    assert_screen_eq(&screen, &expected_screen);
    assert_eq!(collision, expected_collision);
}

#[test]
fn test_draw_sprite_overlap() {
    let expected_collision1 = false;
    let expected_collision2 = true;
    // XX.   ...   XX.
    // XX. + .XX = X.X
    // ...   .XX   .XX
    let mut expected_screen = [false; 64 * 32];
    expected_screen[calc_index(0, 0)] = true;
    expected_screen[calc_index(1, 0)] = true;
    expected_screen[calc_index(0, 1)] = true;
    expected_screen[calc_index(2, 1)] = true;
    expected_screen[calc_index(1, 2)] = true;
    expected_screen[calc_index(2, 2)] = true;

    let sprite1 = [0b1100_0000, 0b1100_0000];
    let sprite2 = [0b0000_0000, 0b0110_0000, 0b0110_0000];
    let mut screen = Chip8Screen::new();
    let collision1 = screen.draw_sprite(0, 0, &sprite1);
    let collision2 = screen.draw_sprite(0, 0, &sprite2);

    assert_screen_eq(&screen, &expected_screen);
    assert_eq!(collision1, expected_collision1);
    assert_eq!(collision2, expected_collision2);
}

#[test]
fn test_draw_sprite_not_overlap() {
    let expected_collision1 = false;
    let expected_collision2 = false;
    // XXX   ...   XXX
    // X.X + .X. = XXX
    // XXX   ...   XXX
    let mut expected_screen = [false; 64 * 32];
    expected_screen[calc_index(0, 0)] = true;
    expected_screen[calc_index(1, 0)] = true;
    expected_screen[calc_index(2, 0)] = true;
    expected_screen[calc_index(0, 1)] = true;
    expected_screen[calc_index(1, 1)] = true;
    expected_screen[calc_index(2, 1)] = true;
    expected_screen[calc_index(0, 2)] = true;
    expected_screen[calc_index(1, 2)] = true;
    expected_screen[calc_index(2, 2)] = true;

    let sprite1 = [0b1110_0000, 0b1010_0000, 0b1110_0000];
    let sprite2 = [0b0000_0000, 0b0100_0000];
    let mut screen = Chip8Screen::new();
    let collision1 = screen.draw_sprite(0, 0, &sprite1);
    let collision2 = screen.draw_sprite(0, 0, &sprite2);

    assert_screen_eq(&screen, &expected_screen);
    assert_eq!(collision1, expected_collision1);
    assert_eq!(collision2, expected_collision2);
}

#[test]
fn test_draw_sprite_screen_edge() {
    let expected_collision = false;
    let mut expected_screen = [false; 64 * 32];
    expected_screen[calc_index(62, 30)] = true;
    expected_screen[calc_index(63, 30)] = true;
    expected_screen[calc_index(62, 31)] = true;
    expected_screen[calc_index(63, 31)] = true;

    let sprite = [
        0b1111_1111,
        0b1111_1111,
        0b1111_1111,
        0b1111_1111,
        0b1111_1111,
        0b1111_1111,
        0b1111_1111,
        0b1111_1111,
    ];
    let mut screen = Chip8Screen::new();
    let collision = screen.draw_sprite(62, 30, &sprite);

    assert_screen_eq(&screen, &expected_screen);
    assert_eq!(collision, expected_collision);
}

#[test]
fn test_draw_sprite_anchor_wraps() {
    // An anchor past the screen edge wraps once: (64, 32) is (0, 0).
    let mut screen = Chip8Screen::new();
    let collision = screen.draw_sprite(64, 32, &[0b1000_0000]);
    assert!(!collision);
    assert!(pixel(&screen, 0, 0));
}

#[test]
fn test_draw_sprite_redraw_restores_blank() {
    // Drawing the identical sprite twice at the same anchor turns every
    // pixel back off and reports a collision only on the second draw.
    let sprite = [0xA5, 0x5A, 0xFF];
    let mut screen = Chip8Screen::new();
    let collision1 = screen.draw_sprite(10, 7, &sprite);
    let collision2 = screen.draw_sprite(10, 7, &sprite);
    assert!(!collision1);
    assert!(collision2);
    let expected_screen = [false; 64 * 32];
    assert_screen_eq(&screen, &expected_screen);
}

#[test]
fn test_clear_turns_all_pixels_off() {
    let mut screen = Chip8Screen::new();
    let _ = screen.draw_sprite(3, 4, &[0xFF, 0xFF]);
    screen.clear();
    let expected_screen = [false; 64 * 32];
    assert_screen_eq(&screen, &expected_screen);
}

#[test]
fn test_get_set_pixel_bounds() {
    let mut screen = Chip8Screen::new();
    assert_eq!(screen.get_pixel(64, 0), Err(ScreenError::OutOfRange { x: 64, y: 0 }));
    assert_eq!(screen.get_pixel(0, 32), Err(ScreenError::OutOfRange { x: 0, y: 32 }));
    assert_eq!(screen.set_pixel(64, 31, true), Err(ScreenError::OutOfRange { x: 64, y: 31 }));
    assert_eq!(screen.set_pixel(5, 6, true), Ok(()));
    assert_eq!(screen.get_pixel(5, 6), Ok(true));
}

#[test]
fn test_draw_sprite_tall_sprite_clipped_at_bottom() {
    // A 15-row sprite anchored two rows above the bottom edge keeps its two
    // visible rows and is clipped, not wrapped, below the screen.
    let mut screen = Chip8Screen::new();
    let sprite = [0b1000_0000; 15];
    let collision = screen.draw_sprite(0, 30, &sprite);
    assert!(!collision);
    assert!(pixel(&screen, 0, 30));
    assert!(pixel(&screen, 0, 31));
    for y in 0..30u8 {
        assert!(!pixel(&screen, 0, y));
    }
}
