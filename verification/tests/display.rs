use mychip8::chip8::display::{Display, DISPLAY_HEIGHT, DISPLAY_WIDTH};

fn lit(display: &Display) -> Vec<(u8, u8)> {
    display.lit_pixels()
}

#[test]
fn display_dimensions() {
    assert_eq!(DISPLAY_WIDTH, 64);
    assert_eq!(DISPLAY_HEIGHT, 32);
    assert_eq!(Display::display_height(), 32);
}

#[test]
fn new_display_is_blank_and_due_to_be_shown() {
    let display = Display::new();
    assert!(display.redraw());
    assert!(lit(&display).is_empty());
    for y in 0..32 {
        for x in 0..64 {
            assert!(!display.pixel_at(x, y));
        }
    }
}

#[test]
fn default_display_is_new_display() {
    let display = Display::default();
    assert!(display.redraw());
    assert!(lit(&display).is_empty());
}

#[test]
fn take_dirty_hands_out_the_flag_once() {
    let mut display = Display::new();
    assert!(display.take_dirty());
    assert!(!display.redraw());
    assert!(!display.take_dirty());
}

#[test]
fn set_pixel_turns_a_pixel_on() {
    let mut display = Display::new();
    display.take_dirty();
    assert!(!display.set_pixel(3, 2, true));
    assert!(display.pixel_at(3, 2));
    assert!(display.redraw());
    assert_eq!(lit(&display), vec![(3, 2)]);
}

#[test]
fn set_pixel_twice_turns_the_pixel_off_and_says_so() {
    let mut display = Display::new();
    assert!(!display.set_pixel(10, 20, true));
    display.take_dirty();
    assert!(display.set_pixel(10, 20, true));
    assert!(!display.pixel_at(10, 20));
    // turning a pixel off is a change too
    assert!(display.redraw());
}

#[test]
fn set_pixel_with_an_off_pixel_changes_nothing() {
    let mut display = Display::new();
    display.set_pixel(1, 1, true);
    display.take_dirty();
    assert!(!display.set_pixel(1, 1, false));
    assert!(display.pixel_at(1, 1));
    assert!(!display.set_pixel(2, 2, false));
    assert!(!display.pixel_at(2, 2));
    assert!(!display.redraw());
}

#[test]
fn set_pixel_wraps_both_coordinates() {
    let mut display = Display::new();
    assert!(!display.set_pixel(64 + 3, 32 + 2, true));
    assert!(display.pixel_at(3, 2));
    assert!(display.set_pixel(128 + 3, 64 + 2, true));
    assert!(!display.pixel_at(3, 2));
    display.set_pixel(63 + 64, 31 + 32, true);
    assert_eq!(lit(&display), vec![(63, 31)]);
    display.clear();
    display.set_pixel(usize::MAX, usize::MAX, true);
    let x = (usize::MAX % 64) as u8;
    let y = (usize::MAX % 32) as u8;
    assert_eq!(lit(&display), vec![(x, y)]);
}

#[test]
fn pixel_at_wraps_both_coordinates() {
    let mut display = Display::new();
    display.set_pixel(5, 7, true);
    assert!(display.pixel_at(5 + 64, 7));
    assert!(display.pixel_at(5, 7 + 32));
    assert!(display.pixel_at(5 + 640, 7 + 320));
    assert!(!display.pixel_at(6, 7));
}

#[test]
fn clear_turns_everything_off_and_marks_the_display() {
    let mut display = Display::new();
    display.set_pixel(0, 0, true);
    display.set_pixel(63, 31, true);
    display.take_dirty();
    display.clear();
    assert!(lit(&display).is_empty());
    assert!(display.redraw());
}

#[test]
fn clear_marks_a_blank_display_too() {
    let mut display = Display::new();
    display.take_dirty();
    display.clear();
    assert!(display.redraw());
}

#[test]
fn draw_once_on_a_cleared_display_does_not_collide() {
    let mut display = Display::new();
    display.clear();
    assert!(!display.draw(8, 4, &[0xFF], false));
    assert_eq!(
        lit(&display),
        vec![(8, 4), (9, 4), (10, 4), (11, 4), (12, 4), (13, 4), (14, 4), (15, 4)]
    );
}

#[test]
fn draw_twice_turns_every_pixel_off_and_collides() {
    let mut display = Display::new();
    display.clear();
    assert!(!display.draw(8, 4, &[0xFF], false));
    display.take_dirty();
    assert!(display.draw(8, 4, &[0xFF], false));
    assert!(lit(&display).is_empty());
    assert!(display.redraw());
}

#[test]
fn draw_puts_the_most_significant_bit_on_the_left() {
    let mut display = Display::new();
    display.draw(0, 0, &[0x80], false);
    assert_eq!(lit(&display), vec![(0, 0)]);
    display.clear();
    display.draw(0, 0, &[0x01], false);
    assert_eq!(lit(&display), vec![(7, 0)]);
    display.clear();
    display.draw(10, 3, &[0b1010_0001], false);
    assert_eq!(lit(&display), vec![(10, 3), (12, 3), (17, 3)]);
}

#[test]
fn draw_puts_rows_one_below_the_other() {
    let mut display = Display::new();
    assert!(!display.draw(2, 5, &[0xC0, 0x00, 0x30], false));
    assert_eq!(lit(&display), vec![(2, 5), (3, 5), (4, 7), (5, 7)]);
}

#[test]
fn draw_glyph_zero() {
    let mut display = Display::new();
    assert!(!display.draw(0, 0, &[0xF0, 0x90, 0x90, 0x90, 0xF0], false));
    assert_eq!(
        lit(&display),
        vec![
            (0, 0), (1, 0), (2, 0), (3, 0),
            (0, 1), (3, 1),
            (0, 2), (3, 2),
            (0, 3), (3, 3),
            (0, 4), (1, 4), (2, 4), (3, 4),
        ]
    );
}

#[test]
fn draw_wraps_columns_round_the_right_edge() {
    let mut display = Display::new();
    assert!(!display.draw(60, 0, &[0xFF], false));
    assert_eq!(
        lit(&display),
        vec![(0, 0), (1, 0), (2, 0), (3, 0), (60, 0), (61, 0), (62, 0), (63, 0)]
    );
}

#[test]
fn draw_wraps_an_origin_right_of_the_display() {
    let mut display = Display::new();
    assert!(!display.draw(64 + 5, 1, &[0x80], false));
    assert_eq!(lit(&display), vec![(5, 1)]);
    assert!(!display.draw(255, 2, &[0xC0], false));
    assert_eq!(lit(&display), vec![(5, 1), (0, 2), (63, 2)]);
}

#[test]
fn draw_clips_rows_below_the_bottom_edge() {
    let mut display = Display::new();
    assert!(!display.draw(0, 30, &[0x80, 0x80, 0x80, 0x80], false));
    assert_eq!(lit(&display), vec![(0, 30), (0, 31)]);
}

#[test]
fn draw_wraps_rows_where_asked_to() {
    let mut display = Display::new();
    assert!(!display.draw(0, 30, &[0x80, 0x80, 0x80, 0x80], true));
    assert_eq!(lit(&display), vec![(0, 0), (0, 1), (0, 30), (0, 31)]);
}

#[test]
fn draw_below_the_display_draws_nothing_without_wrap() {
    let mut display = Display::new();
    display.take_dirty();
    assert!(!display.draw(0, 32, &[0xFF, 0xFF], false));
    assert!(!display.draw(0, 40, &[0xFF], false));
    assert!(!display.draw(0, 255, &[0xFF], false));
    assert!(lit(&display).is_empty());
    assert!(!display.redraw());
}

#[test]
fn draw_below_the_display_wraps_where_asked_to() {
    let mut display = Display::new();
    assert!(!display.draw(0, 40, &[0x80], true));
    assert_eq!(lit(&display), vec![(0, 8)]);
}

#[test]
fn draw_reports_a_collision_of_a_single_pixel() {
    let mut display = Display::new();
    display.set_pixel(7, 0, true);
    assert!(display.draw(0, 0, &[0x01], false));
    assert!(!display.pixel_at(7, 0));
}

#[test]
fn draw_next_to_a_lit_pixel_does_not_collide() {
    let mut display = Display::new();
    display.set_pixel(8, 0, true);
    assert!(!display.draw(0, 0, &[0xFF], false));
    assert!(display.pixel_at(8, 0));
    assert!(display.pixel_at(7, 0));
}

#[test]
fn draw_over_a_lit_pixel_with_an_off_bit_does_not_collide() {
    let mut display = Display::new();
    display.set_pixel(1, 0, true);
    assert!(!display.draw(0, 0, &[0x80], false));
    assert_eq!(lit(&display), vec![(0, 0), (1, 0)]);
}

#[test]
fn draw_judges_a_collision_before_the_xor() {
    let mut display = Display::new();
    display.draw(0, 0, &[0xF0], false);
    // the right half of the first sprite is off; the second covers both halves
    assert!(display.draw(0, 0, &[0xFF], false));
    assert_eq!(lit(&display), vec![(4, 0), (5, 0), (6, 0), (7, 0)]);
}

#[test]
fn draw_an_empty_sprite_changes_nothing() {
    let mut display = Display::new();
    display.take_dirty();
    assert!(!display.draw(3, 3, &[], false));
    assert!(!display.draw(3, 3, &[], true));
    assert!(lit(&display).is_empty());
    assert!(!display.redraw());
}

#[test]
fn draw_an_all_off_sprite_does_not_mark_the_display() {
    let mut display = Display::new();
    display.set_pixel(0, 0, true);
    display.take_dirty();
    assert!(!display.draw(0, 0, &[0x00, 0x00], false));
    assert!(!display.redraw());
    assert_eq!(lit(&display), vec![(0, 0)]);
}

#[test]
fn draw_marks_the_display() {
    let mut display = Display::new();
    display.take_dirty();
    display.draw(0, 0, &[0x10], false);
    assert!(display.redraw());
}

#[test]
fn draw_a_tall_wrapping_sprite_meets_itself() {
    let mut display = Display::new();
    let mut sprite = vec![0u8; 33];
    sprite[0] = 0x80;
    sprite[32] = 0x80;
    // row 32 lands on row 0 again and turns the pixel off
    assert!(display.draw(0, 0, &sprite, true));
    assert!(lit(&display).is_empty());
}

#[test]
fn draw_with_a_huge_origin_does_not_overflow() {
    let mut display = Display::new();
    assert!(!display.draw(usize::MAX, usize::MAX, &[0x80, 0x80], true));
    let x = (usize::MAX % 64) as u8;
    let y = (usize::MAX % 32) as u8;
    assert!(display.pixel_at(x as usize, y as usize));
    assert!(display.pixel_at(x as usize, (y as usize + 1) % 32));
    assert_eq!(lit(&display).len(), 2);
}

#[test]
fn visible_rows_counts_the_rows_that_are_drawn() {
    assert_eq!(Display::visible_rows(0, 15, false), 15);
    assert_eq!(Display::visible_rows(17, 15, false), 15);
    assert_eq!(Display::visible_rows(18, 15, false), 14);
    assert_eq!(Display::visible_rows(31, 15, false), 1);
    assert_eq!(Display::visible_rows(32, 15, false), 0);
    assert_eq!(Display::visible_rows(255, 15, false), 0);
    assert_eq!(Display::visible_rows(31, 15, true), 15);
    assert_eq!(Display::visible_rows(255, 15, true), 15);
    assert_eq!(Display::visible_rows(0, 0, false), 0);
    assert_eq!(Display::visible_rows(0, 0, true), 0);
}

#[test]
fn lit_pixels_come_row_by_row() {
    let mut display = Display::new();
    display.set_pixel(5, 1, true);
    display.set_pixel(63, 0, true);
    display.set_pixel(0, 1, true);
    display.set_pixel(0, 0, true);
    display.set_pixel(63, 31, true);
    assert_eq!(
        lit(&display),
        vec![(0, 0), (63, 0), (0, 1), (5, 1), (63, 31)]
    );
}

#[test]
fn lit_pixels_of_a_full_display() {
    let mut display = Display::new();
    for y in 0..32 {
        for x in 0..64 {
            display.set_pixel(x, y, true);
        }
    }
    let cells = lit(&display);
    assert_eq!(cells.len(), 2048);
    assert_eq!(cells[0], (0, 0));
    assert_eq!(cells[64], (0, 1));
    assert_eq!(cells[2047], (63, 31));
}

#[test]
fn lit_pixels_leaves_the_flag_alone() {
    let mut display = Display::new();
    display.set_pixel(1, 1, true);
    lit(&display);
    assert!(display.redraw());
    display.take_dirty();
    lit(&display);
    assert!(!display.redraw());
}
