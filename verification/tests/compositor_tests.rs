use spectrum_bars::block_char::BlockChar;
use spectrum_bars::color::{invert_color_style, CellColor, CellStyle, RGB};
use spectrum_bars::compositor::{gradient_line_cmds, next_tick, spectrum_frame};
use spectrum_bars::direction::Direction;
use spectrum_bars::easing::Easing;
use spectrum_bars::gradient_range::GradientRange;

fn rgb_style(r: u8, g: u8, b: u8) -> CellStyle {
    CellStyle { front: CellColor::Rgb(RGB { r, g, b }), back: CellColor::TerminalDefault }
}

#[test]
fn inverting_swaps_front_and_back() {
    let cs = rgb_style(1, 2, 3);
    let inv = invert_color_style(cs);
    assert_eq!(inv.front, CellColor::TerminalDefault);
    assert_eq!(inv.back, CellColor::Rgb(RGB { r: 1, g: 2, b: 3 }));
    assert_eq!(invert_color_style(inv), cs);
}

#[test]
fn rightward_line_counts_away_from_the_anchor() {
    let grad = GradientRange::new((10, 10, 10), (10, 10, 10), 5);
    let cmds = gradient_line_cmds(2, 7, &grad, 5, 12, Direction::Right);
    assert_eq!(cmds.len(), 5);
    for (i, cmd) in cmds.iter().enumerate() {
        assert_eq!(cmd.x, 2 + i);
        assert_eq!(cmd.y, 7);
    }
    assert_eq!(cmds[0].glyph, BlockChar::FF);
    assert_eq!(cmds[1].glyph, BlockChar::R4);
    assert_eq!(cmds[2].glyph, BlockChar::NL);
    assert_eq!(cmds[0].style, rgb_style(10, 10, 10));
    assert_eq!(cmds[1].style, rgb_style(10, 10, 10));
}

#[test]
fn leftward_line_counts_toward_the_anchor_and_inverts_partials() {
    let grad = GradientRange::new((10, 10, 10), (10, 10, 10), 5);
    let cmds = gradient_line_cmds(2, 7, &grad, 5, 12, Direction::Left);
    assert_eq!(cmds.len(), 5);
    // Logical cell i sits at x + (max_len - i) - 1.
    assert_eq!(cmds[0].x, 6);
    assert_eq!(cmds[1].x, 5);
    assert_eq!(cmds[4].x, 2);
    assert_eq!(cmds[1].glyph, BlockChar::L4);
    // The left-growing partial is drawn with the ink swapped.
    assert_eq!(cmds[1].style, invert_color_style(rgb_style(10, 10, 10)));
    assert_eq!(cmds[0].style, rgb_style(10, 10, 10));
}

#[test]
fn vertical_lines_move_along_y() {
    let grad = GradientRange::new((10, 10, 10), (10, 10, 10), 4);
    let down = gradient_line_cmds(3, 1, &grad, 4, 9, Direction::Down);
    assert_eq!(down[0].x, 3);
    assert_eq!(down[0].y, 1);
    assert_eq!(down[3].y, 4);
    assert_eq!(down[1].glyph, BlockChar::D1);
    let up = gradient_line_cmds(3, 1, &grad, 4, 9, Direction::Up);
    assert_eq!(up[0].y, 4);
    assert_eq!(up[3].y, 1);
    assert_eq!(up[1].glyph, BlockChar::U1);
}

#[test]
fn line_stops_at_the_shorter_of_bar_and_gradient() {
    let grad = GradientRange::new((0, 0, 0), (9, 9, 9), 3);
    let cmds = gradient_line_cmds(0, 0, &grad, 5, 12, Direction::Right);
    assert_eq!(cmds.len(), 3);
    let wide = GradientRange::new((0, 0, 0), (9, 9, 9), 8);
    let cmds2 = gradient_line_cmds(0, 0, &wide, 5, 12, Direction::Right);
    assert_eq!(cmds2.len(), 5);
}

#[test]
fn spectrum_frame_draws_four_bars() {
    let grad = GradientRange::new((0x42, 0x27, 0x5a), (0x73, 0x4b, 0x6d), 6);
    let cmds = spectrum_frame(&grad, 6, 48, Easing::Linear);
    assert_eq!(cmds.len(), 24);
    // The rightward bar lives in row 0, the leftward bar in row 1.
    assert_eq!(cmds[0].x, 0);
    assert_eq!(cmds[0].y, 0);
    assert_eq!(cmds[6].y, 1);
    // A full linear tick count fills every cell.
    for cmd in cmds.iter() {
        assert_eq!(cmd.glyph, BlockChar::FF);
    }
}

#[test]
fn spectrum_frame_eases_before_filling() {
    let grad = GradientRange::new((1, 1, 1), (9, 9, 9), 4);
    // Linear easing of 12 of 32 eighths: one full cell, a half tail.
    let cmds = spectrum_frame(&grad, 4, 12, Easing::Linear);
    assert_eq!(cmds.len(), 16);
    assert_eq!(cmds[0].glyph, BlockChar::FF);
    assert_eq!(cmds[1].glyph, BlockChar::R4);
    assert_eq!(cmds[2].glyph, BlockChar::NL);
}

#[test]
fn ticks_advance_until_past_the_limit() {
    assert_eq!(next_tick(0, 480), Some(1));
    assert_eq!(next_tick(480, 480), Some(481));
    assert_eq!(next_tick(481, 480), None);
}
