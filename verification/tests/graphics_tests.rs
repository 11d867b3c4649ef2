use octerm::graphics::{Canvas, Char, Color, ScreenResolution};

fn res(w: u8, h: u8) -> ScreenResolution {
    ScreenResolution { width: w, height: h }
}

fn cell(c: &Canvas, x: u8, y: u8) -> Char {
    *c.get(x, y)
}

#[test]
fn area_multiplies_the_sides() {
    assert_eq!(res(80, 25).area(), 2000);
    assert_eq!(res(255, 255).area(), 65025);
    assert_eq!(res(0, 40).area(), 0);
}

#[test]
fn default_color_is_black() {
    let c = Color::default();
    assert_eq!((c.r, c.g, c.b), (0, 0, 0));
}

#[test]
fn a_new_canvas_is_blank() {
    let c = Canvas::new(res(4, 3));
    assert_eq!(c.resolution, res(4, 3));
    assert_eq!(c.fg, 255);
    assert_eq!(c.bg, 16);
    for y in 0..3 {
        for x in 0..4 {
            assert_eq!(cell(&c, x, y), Char::empty());
        }
    }
}

#[test]
fn empty_cell_is_a_space() {
    let e = Char::empty();
    assert_eq!(e.char, ' ');
    assert_eq!(e.fg_idx, 255);
    assert_eq!(e.bg_idx, 16);
}

#[test]
fn set_writes_one_cell_and_get_reads_it_back() {
    let mut c = Canvas::new(res(5, 5));
    let ch = Char { fg_idx: 1, bg_idx: 2, char: 'x' };
    c.set(3, 4, ch);
    assert_eq!(cell(&c, 3, 4), ch);
    assert_eq!(cell(&c, 4, 3), Char::empty());
}

#[test]
fn set_ignores_coordinates_off_the_canvas() {
    let mut c = Canvas::new(res(2, 2));
    let ch = Char { fg_idx: 1, bg_idx: 2, char: 'x' };
    c.set(2, 0, ch);
    c.set(0, 2, ch);
    c.set(255, 255, ch);
    for y in 0..2 {
        for x in 0..2 {
            assert_eq!(cell(&c, x, y), Char::empty());
        }
    }
}

#[test]
fn resize_keeps_the_shared_cells_and_blanks_the_rest() {
    let mut c = Canvas::new(res(3, 2));
    let ch = Char { fg_idx: 9, bg_idx: 8, char: 'q' };
    c.set(2, 1, ch);
    c.set(0, 0, ch);
    c.resize(res(2, 3));
    assert_eq!(c.resolution, res(2, 3));
    assert_eq!(cell(&c, 0, 0), ch);
    assert_eq!(cell(&c, 1, 0), Char::empty());
    assert_eq!(cell(&c, 0, 2), Char::empty());
    assert_eq!(cell(&c, 1, 2), Char::empty());
}

#[test]
fn fill_paints_the_clipped_rectangle_in_current_colours() {
    let mut c = Canvas::new(res(4, 4));
    c.fill(2, 1, 5, 2, '#');
    let painted = Char { fg_idx: 255, bg_idx: 16, char: '#' };
    for y in 0..4u8 {
        for x in 0..4u8 {
            let expect = if (2..4).contains(&x) && (1..3).contains(&y) {
                painted
            } else {
                Char::empty()
            };
            assert_eq!(cell(&c, x, y), expect, "at ({}, {})", x, y);
        }
    }
}

#[test]
fn fill_far_off_the_canvas_does_nothing() {
    let mut c = Canvas::new(res(3, 3));
    c.fill(200, 0, 10, 10, '#');
    c.fill(0, 200, 10, 10, '#');
    for y in 0..3 {
        for x in 0..3 {
            assert_eq!(cell(&c, x, y), Char::empty());
        }
    }
}

#[test]
fn copy_moves_a_block() {
    let mut c = Canvas::new(res(6, 4));
    let a = Char { fg_idx: 1, bg_idx: 0, char: 'a' };
    let b = Char { fg_idx: 1, bg_idx: 0, char: 'b' };
    c.set(0, 0, a);
    c.set(1, 0, b);
    c.copy(0, 0, 2, 1, 3, 2);
    assert_eq!(cell(&c, 3, 2), a);
    assert_eq!(cell(&c, 4, 2), b);
    assert_eq!(cell(&c, 0, 0), a);
    assert_eq!(cell(&c, 1, 0), b);
}

#[test]
fn copy_of_overlapping_blocks_reads_the_snapshot() {
    let mut c = Canvas::new(res(5, 1));
    let mk = |ch: char| Char { fg_idx: 0, bg_idx: 0, char: ch };
    c.set(0, 0, mk('a'));
    c.set(1, 0, mk('b'));
    c.set(2, 0, mk('c'));
    // shift the three cells one column right; source and target overlap
    c.copy(0, 0, 3, 1, 1, 0);
    assert_eq!(cell(&c, 1, 0).char, 'a');
    assert_eq!(cell(&c, 2, 0).char, 'b');
    assert_eq!(cell(&c, 3, 0).char, 'c');
    assert_eq!(cell(&c, 0, 0).char, 'a');
}

#[test]
fn copy_drops_target_cells_off_the_canvas() {
    let mut c = Canvas::new(res(3, 1));
    let mk = |ch: char| Char { fg_idx: 0, bg_idx: 0, char: ch };
    c.set(0, 0, mk('a'));
    c.set(1, 0, mk('b'));
    c.copy(0, 0, 2, 1, 2, 0);
    assert_eq!(cell(&c, 2, 0).char, 'a');
    assert_eq!(cell(&c, 0, 0).char, 'a');
    assert_eq!(cell(&c, 1, 0).char, 'b');
}

#[test]
fn set_string_draws_left_to_right() {
    let mut c = Canvas::new(res(8, 2));
    c.set_string(1, 0, String::from("hey"), false);
    assert_eq!(cell(&c, 1, 0).char, 'h');
    assert_eq!(cell(&c, 2, 0).char, 'e');
    assert_eq!(cell(&c, 3, 0).char, 'y');
    assert_eq!(cell(&c, 4, 0), Char::empty());
    assert_eq!(cell(&c, 1, 0).fg_idx, 255);
    assert_eq!(cell(&c, 1, 0).bg_idx, 16);
}

#[test]
fn set_string_draws_top_to_bottom_when_vertical() {
    let mut c = Canvas::new(res(2, 4));
    c.set_string(0, 1, String::from("ab"), true);
    assert_eq!(cell(&c, 0, 1).char, 'a');
    assert_eq!(cell(&c, 0, 2).char, 'b');
    assert_eq!(cell(&c, 0, 0), Char::empty());
}

#[test]
fn wide_characters_take_two_columns() {
    let mut c = Canvas::new(res(8, 1));
    c.set_string(0, 0, String::from("a\u{4e16}b"), false);
    assert_eq!(cell(&c, 0, 0).char, 'a');
    assert_eq!(cell(&c, 1, 0).char, '\u{4e16}');
    assert_eq!(cell(&c, 2, 0).char, ' ');
    assert_eq!(cell(&c, 3, 0).char, 'b');
    assert_eq!(cell(&c, 4, 0), Char::empty());
}

#[test]
fn a_control_character_stops_the_drawing() {
    let mut c = Canvas::new(res(8, 1));
    c.set_string(0, 0, String::from("ab\u{7}cd"), false);
    assert_eq!(cell(&c, 0, 0).char, 'a');
    assert_eq!(cell(&c, 1, 0).char, 'b');
    assert_eq!(cell(&c, 2, 0), Char::empty());
    assert_eq!(cell(&c, 3, 0), Char::empty());
}

#[test]
fn set_string_clips_at_the_right_edge() {
    let mut c = Canvas::new(res(3, 1));
    c.set_string(1, 0, String::from("wxyz"), false);
    assert_eq!(cell(&c, 1, 0).char, 'w');
    assert_eq!(cell(&c, 2, 0).char, 'x');
    assert_eq!(cell(&c, 0, 0), Char::empty());
}
