use spectrum_bars::color::{CellColor, CellStyle, RGB};
use spectrum_bars::gradient_range::{GRange, GRangeIter, GradientRange};

fn style_of(c: RGB) -> CellStyle {
    CellStyle { front: CellColor::Rgb(c), back: CellColor::TerminalDefault }
}

fn front_rgb(style: CellStyle) -> RGB {
    match style.front {
        CellColor::Rgb(c) => c,
        CellColor::TerminalDefault => panic!("gradient front should be a color"),
    }
}

#[test]
fn equal_endpoints_make_a_constant_gradient() {
    let c = (0x42, 0x27, 0x5a);
    for n in 0..10usize {
        let g = GradientRange::new(c, c, n);
        assert_eq!(g.len(), n);
        for i in 0..n {
            assert_eq!(g.style_at(i), style_of(RGB { r: 0x42, g: 0x27, b: 0x5a }));
        }
    }
}

#[test]
fn grange_interpolates_equal_endpoints_to_the_same_color() {
    let c = RGB { r: 9, g: 200, b: 77 };
    let g = GRange::new(c, c, 7);
    assert_eq!(g.len(), 7);
    for i in 0..7 {
        assert_eq!(g.get(i), Some(style_of(c)));
    }
    assert_eq!(g.get(7), None);
}

#[test]
fn gradient_endpoints_are_exact() {
    let a = (0x42, 0x27, 0x5a);
    let b = (0x73, 0x4b, 0x6d);
    let g = GradientRange::new(a, b, 60);
    assert_eq!(g.style_at(0), style_of(RGB { r: 0x42, g: 0x27, b: 0x5a }));
    assert_eq!(g.style_at(59), style_of(RGB { r: 0x73, g: 0x4b, b: 0x6d }));
}

#[test]
fn gradient_channels_move_monotonically() {
    let a = (0x10, 0xf0, 0x80);
    let b = (0xe0, 0x20, 0x80);
    let g = GradientRange::new(a, b, 40);
    for i in 1..40usize {
        let prev = front_rgb(g.style_at(i - 1));
        let here = front_rgb(g.style_at(i));
        assert!(prev.r <= here.r);
        assert!(prev.g >= here.g);
        assert_eq!(here.b, 0x80);
    }
}

#[test]
fn midpoint_rounds_half_away_from_zero() {
    let g = GradientRange::new((0, 0, 0), (255, 255, 255), 3);
    assert_eq!(front_rgb(g.style_at(1)), RGB { r: 128, g: 128, b: 128 });
}

#[test]
fn single_cell_gradient_is_the_first_color() {
    let g = GradientRange::new((1, 2, 3), (200, 100, 50), 1);
    assert_eq!(g.len(), 1);
    assert_eq!(g.style_at(0), style_of(RGB { r: 1, g: 2, b: 3 }));

    let lazy = GRange::new(RGB { r: 1, g: 2, b: 3 }, RGB { r: 200, g: 100, b: 50 }, 1);
    assert_eq!(lazy.get(0), Some(style_of(RGB { r: 1, g: 2, b: 3 })));
}

#[test]
fn empty_gradient_has_no_styles() {
    let g = GradientRange::new((1, 2, 3), (4, 5, 6), 0);
    assert_eq!(g.len(), 0);
    assert!(g.styles().is_empty());
    let lazy = GRange::new(RGB { r: 1, g: 2, b: 3 }, RGB { r: 4, g: 5, b: 6 }, 0);
    assert_eq!(lazy.get(0), None);
}

#[test]
fn grange_iter_walks_and_restarts() {
    let a = RGB { r: 0, g: 0, b: 0 };
    let b = RGB { r: 255, g: 255, b: 255 };
    let g = GRange::new(a, b, 3);
    let mut it = GRangeIter::new(g);
    assert_eq!(it.next(), Some(style_of(a)));
    assert_eq!(it.next(), Some(style_of(RGB { r: 128, g: 128, b: 128 })));
    assert_eq!(it.next(), Some(style_of(b)));
    assert_eq!(it.next(), None);
    assert_eq!(it.next(), None);
    it.reset();
    assert_eq!(it.next(), Some(style_of(a)));
}

#[test]
fn lazy_and_precomputed_gradients_agree() {
    let a = (0x42, 0x27, 0x5a);
    let b = (0x73, 0x4b, 0x6d);
    let pre = GradientRange::new(a, b, 60);
    let lazy = GRange::new(
        RGB { r: a.0, g: a.1, b: a.2 },
        RGB { r: b.0, g: b.1, b: b.2 },
        60,
    );
    for i in 0..60usize {
        assert_eq!(lazy.get(i), Some(pre.style_at(i)));
    }
}
