use spectrum_bars::block_char::BlockChar;
use spectrum_bars::block_line::BlockLine;
use spectrum_bars::direction::Direction;
use spectrum_bars::remainder::Remainder;

fn glyph_chars(line: BlockLine) -> Vec<char> {
    let mut it = line.into_iter();
    let mut out = Vec::new();
    while let Some(bc) = it.next() {
        out.push(bc.to_char());
    }
    out
}

#[test]
fn empty_bar_is_all_blank() {
    let line = BlockLine::from_len_and_8ths(5, 0, Direction::Right);
    assert_eq!(line.char_len(), 5);
    assert_eq!(glyph_chars(line), vec![' ', ' ', ' ', ' ', ' ']);
}

#[test]
fn forty_eighths_fill_five_cells_exactly() {
    let line = BlockLine::from_len_and_8ths(5, 40, Direction::Right);
    assert_eq!(line.char_len(), 5);
    assert!(line.tail.is_none());
    assert_eq!(
        glyph_chars(line),
        vec!['\u{2588}', '\u{2588}', '\u{2588}', '\u{2588}', '\u{2588}']
    );
}

#[test]
fn twelve_eighths_leave_a_half_cell_tail() {
    let line = BlockLine::from_len_and_8ths(5, 12, Direction::Right);
    assert_eq!(line.filled_blocks, 1);
    assert_eq!(line.tail, Some((Remainder::E4, 3)));
    assert_eq!(
        glyph_chars(line),
        vec!['\u{2588}', '\u{258c}', ' ', ' ', ' ']
    );
}

#[test]
fn char_len_always_matches_requested_length() {
    for max_len in 0..12usize {
        for eighths in 0..110usize {
            let line = BlockLine::from_len_and_8ths(max_len, eighths, Direction::Up);
            assert_eq!(line.char_len(), max_len);
        }
    }
}

#[test]
fn saturation_beyond_full_has_no_tail() {
    let line = BlockLine::from_len_and_8ths(3, 1000, Direction::Down);
    assert_eq!(line.filled_blocks, 3);
    assert!(line.tail.is_none());
    assert_eq!(line.char_len(), 3);
}

#[test]
fn largest_line_still_measures_exactly() {
    let line = BlockLine::from_len_and_8ths(usize::MAX, usize::MAX, Direction::Right);
    assert_eq!(line.char_len(), usize::MAX);
}

#[test]
fn rem_reads_the_tail_fraction() {
    let line = BlockLine::from_len_and_8ths(5, 13, Direction::Right);
    assert_eq!(line._rem(), Remainder::E5);
    let full = BlockLine::from_len_and_8ths(2, 16, Direction::Right);
    assert_eq!(full._rem(), Remainder::E0);
}

#[test]
fn inversion_is_exactly_the_left_and_down_partials() {
    let cases: [(BlockChar, bool); 30] = [
        (BlockChar::NL, false),
        (BlockChar::R1, false),
        (BlockChar::R2, false),
        (BlockChar::R3, false),
        (BlockChar::R4, false),
        (BlockChar::R5, false),
        (BlockChar::R6, false),
        (BlockChar::R7, false),
        (BlockChar::U1, false),
        (BlockChar::U2, false),
        (BlockChar::U3, false),
        (BlockChar::U4, false),
        (BlockChar::U5, false),
        (BlockChar::U6, false),
        (BlockChar::U7, false),
        (BlockChar::L1, true),
        (BlockChar::L2, true),
        (BlockChar::L3, true),
        (BlockChar::L4, true),
        (BlockChar::L5, true),
        (BlockChar::L6, true),
        (BlockChar::L7, true),
        (BlockChar::D1, true),
        (BlockChar::D2, true),
        (BlockChar::D3, true),
        (BlockChar::D4, true),
        (BlockChar::D5, true),
        (BlockChar::D6, true),
        (BlockChar::D7, true),
        (BlockChar::FF, false),
    ];
    for (bc, expected) in cases {
        assert_eq!(bc.needs_inversion(), expected);
    }
}

#[test]
fn zero_fraction_is_blank_in_every_direction() {
    for dir in [Direction::Right, Direction::Up, Direction::Left, Direction::Down] {
        assert_eq!(BlockChar::select(Remainder::E0, dir), BlockChar::NL);
    }
}

#[test]
fn selection_follows_the_direction() {
    assert_eq!(BlockChar::select(Remainder::E4, Direction::Right), BlockChar::R4);
    assert_eq!(BlockChar::select(Remainder::E4, Direction::Left), BlockChar::L4);
    assert_eq!(BlockChar::select(Remainder::E1, Direction::Up), BlockChar::U1);
    assert_eq!(BlockChar::select(Remainder::E7, Direction::Down), BlockChar::D7);
}

#[test]
fn paired_partials_share_display_characters() {
    assert_eq!(BlockChar::R1.to_char(), BlockChar::L7.to_char());
    assert_eq!(BlockChar::R2.to_char(), BlockChar::L6.to_char());
    assert_eq!(BlockChar::R3.to_char(), BlockChar::L5.to_char());
    assert_eq!(BlockChar::R4.to_char(), BlockChar::L4.to_char());
    assert_eq!(BlockChar::R5.to_char(), BlockChar::L3.to_char());
    assert_eq!(BlockChar::R6.to_char(), BlockChar::L2.to_char());
    assert_eq!(BlockChar::R7.to_char(), BlockChar::L1.to_char());
    assert_eq!(BlockChar::U1.to_char(), BlockChar::D7.to_char());
    assert_eq!(BlockChar::U4.to_char(), BlockChar::D4.to_char());
    assert_eq!(BlockChar::U7.to_char(), BlockChar::D1.to_char());
    assert_eq!(BlockChar::R4.to_char(), '\u{258c}');
    assert_eq!(BlockChar::U4.to_char(), '\u{2584}');
    assert_eq!(BlockChar::NL.to_char(), ' ');
    assert_eq!(BlockChar::FF.to_char(), '\u{2588}');
}

#[test]
fn iterator_stops_after_the_line_ends() {
    let line = BlockLine::from_len_and_8ths(2, 9, Direction::Right);
    let mut it = line.into_iter();
    assert_eq!(it.next(), Some(BlockChar::FF));
    assert_eq!(it.next(), Some(BlockChar::R1));
    assert_eq!(it.next(), None);
    assert_eq!(it.next(), None);
}
