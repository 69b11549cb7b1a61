use crate::color::{spec_rgb_of, spec_style_of, CellColor, CellStyle, RGB};
use crate::rounding::{
    lemma_round_div_exact, lemma_round_div_monotonic, round_div, round_div_u128,
};
use vstd::prelude::*;

verus! {

/// One interpolated channel: the value `i / m` of the way from `a` to
/// `b`, rounded to the nearest integer.
pub open spec fn lerp_channel(a: int, b: int, i: int, m: int) -> int {
    round_div((m - i) * a + i * b, m)
}

/// The color `i / m` of the way from `a` to `b`, each channel
/// interpolated independently.
pub open spec fn lerp_rgb(a: RGB, b: RGB, i: int, m: int) -> RGB {
    RGB {
        r: lerp_channel(a.r as int, b.r as int, i, m) as u8,
        g: lerp_channel(a.g as int, b.g as int, i, m) as u8,
        b: lerp_channel(a.b as int, b.b as int, i, m) as u8,
    }
}

proof fn lemma_lerp_num_bound(a: int, b: int, i: int, m: int)
    by (nonlinear_arith)
    requires
        0 <= a <= 255,
        0 <= b <= 255,
        0 <= i <= m,
    ensures
        0 <= (m - i) * a,
        0 <= i * b,
        (m - i) * a + i * b <= 255 * m,
{
}

/// An interpolated channel always lies between the two endpoint values.
pub proof fn lemma_lerp_channel_between(a: int, b: int, i: int, m: int)
    requires
        0 < m,
        0 <= i <= m,
    ensures
        a <= b ==> a <= lerp_channel(a, b, i, m) <= b,
        b <= a ==> b <= lerp_channel(a, b, i, m) <= a,
{
    let n = (m - i) * a + i * b;
    if a <= b {
        assert(m * a <= n && n <= m * b) by (nonlinear_arith)
            requires
                0 <= i <= m,
                a <= b,
                n == (m - i) * a + i * b,
        ;
        lemma_round_div_monotonic(m * a, n, m);
        lemma_round_div_monotonic(n, m * b, m);
        assert(a * m == m * a && b * m == m * b) by (nonlinear_arith);
        lemma_round_div_exact(a, m);
        lemma_round_div_exact(b, m);
    } else {
        assert(m * b <= n && n <= m * a) by (nonlinear_arith)
            requires
                0 <= i <= m,
                b <= a,
                n == (m - i) * a + i * b,
        ;
        lemma_round_div_monotonic(m * b, n, m);
        lemma_round_div_monotonic(n, m * a, m);
        assert(a * m == m * a && b * m == m * b) by (nonlinear_arith);
        lemma_round_div_exact(a, m);
        lemma_round_div_exact(b, m);
    }
}

proof fn lemma_lerp_channel_monotonic(a: int, b: int, i: int, j: int, m: int)
    requires
        0 < m,
        0 <= i <= j <= m,
    ensures
        a <= b ==> lerp_channel(a, b, i, m) <= lerp_channel(a, b, j, m),
        b <= a ==> lerp_channel(a, b, j, m) <= lerp_channel(a, b, i, m),
{
    let ni = (m - i) * a + i * b;
    let nj = (m - j) * a + j * b;
    if a <= b {
        assert(ni <= nj) by (nonlinear_arith)
            requires
                i <= j,
                a <= b,
                ni == (m - i) * a + i * b,
                nj == (m - j) * a + j * b,
        ;
        lemma_round_div_monotonic(ni, nj, m);
    }
    if b <= a {
        assert(nj <= ni) by (nonlinear_arith)
            requires
                i <= j,
                b <= a,
                ni == (m - i) * a + i * b,
                nj == (m - j) * a + j * b,
        ;
        lemma_round_div_monotonic(nj, ni, m);
    }
}

/// Law: interpolating between a color and itself yields that color at
/// every position, so a gradient with equal endpoints is constant.
pub proof fn lemma_gradient_constant_color(c: RGB, i: int, m: int)
    requires
        0 < m,
        0 <= i <= m,
    ensures
        lerp_rgb(c, c, i, m) == c,
{
    assert forall|x: int| 0 <= x <= 255 implies lerp_channel(x, x, i, m) == x by {
        assert((m - i) * x + i * x == m * x && x * m == m * x) by (nonlinear_arith);
        lemma_round_div_exact(x, m);
    }
    assert(lerp_channel(c.r as int, c.r as int, i, m) == c.r);
    assert(lerp_channel(c.g as int, c.g as int, i, m) == c.g);
    assert(lerp_channel(c.b as int, c.b as int, i, m) == c.b);
}

/// Law: a gradient's first position is exactly the first endpoint color
/// and its last position is exactly the second.
pub proof fn lemma_gradient_endpoints_exact(a: RGB, b: RGB, m: int)
    requires
        0 < m,
    ensures
        lerp_rgb(a, b, 0, m) == a,
        lerp_rgb(a, b, m, m) == b,
{
    assert forall|x: int, y: int|
        0 <= x <= 255 && 0 <= y <= 255 implies lerp_channel(x, y, 0, m) == x && lerp_channel(
        x,
        y,
        m,
        m,
    ) == y by {
        assert((m - 0) * x + 0 * y == m * x && x * m == m * x) by (nonlinear_arith);
        assert((m - m) * x + m * y == m * y && y * m == m * y) by (nonlinear_arith);
        lemma_round_div_exact(x, m);
        lemma_round_div_exact(y, m);
    }
    assert(lerp_channel(a.r as int, b.r as int, 0, m) == a.r);
    assert(lerp_channel(a.g as int, b.g as int, 0, m) == a.g);
    assert(lerp_channel(a.b as int, b.b as int, 0, m) == a.b);
    assert(lerp_channel(a.r as int, b.r as int, m, m) == b.r);
    assert(lerp_channel(a.g as int, b.g as int, m, m) == b.g);
    assert(lerp_channel(a.b as int, b.b as int, m, m) == b.b);
}

/// Law: between the two endpoints every channel moves monotonically: it
/// never steps back toward the first color nor overshoots the second.
pub proof fn lemma_gradient_channel_monotonic(a: RGB, b: RGB, i: int, j: int, m: int)
    requires
        0 < m,
        0 <= i <= j <= m,
    ensures
        a.r <= b.r ==> lerp_rgb(a, b, i, m).r <= lerp_rgb(a, b, j, m).r,
        b.r <= a.r ==> lerp_rgb(a, b, j, m).r <= lerp_rgb(a, b, i, m).r,
        a.g <= b.g ==> lerp_rgb(a, b, i, m).g <= lerp_rgb(a, b, j, m).g,
        b.g <= a.g ==> lerp_rgb(a, b, j, m).g <= lerp_rgb(a, b, i, m).g,
        a.b <= b.b ==> lerp_rgb(a, b, i, m).b <= lerp_rgb(a, b, j, m).b,
        b.b <= a.b ==> lerp_rgb(a, b, j, m).b <= lerp_rgb(a, b, i, m).b,
{
    lemma_lerp_channel_between(a.r as int, b.r as int, i, m);
    lemma_lerp_channel_between(a.g as int, b.g as int, i, m);
    lemma_lerp_channel_between(a.b as int, b.b as int, i, m);
    lemma_lerp_channel_between(a.r as int, b.r as int, j, m);
    lemma_lerp_channel_between(a.g as int, b.g as int, j, m);
    lemma_lerp_channel_between(a.b as int, b.b as int, j, m);
    lemma_lerp_channel_monotonic(a.r as int, b.r as int, i, j, m);
    lemma_lerp_channel_monotonic(a.g as int, b.g as int, i, j, m);
    lemma_lerp_channel_monotonic(a.b as int, b.b as int, i, j, m);
}

/// One interpolated channel, computed exactly as `lerp_channel` says.
fn lerp_channel_exec(a: u8, b: u8, i: usize, m: usize) -> (r: u8)
    requires
        0 < m,
        i <= m,
    ensures
        r as int == lerp_channel(a as int, b as int, i as int, m as int),
{
    proof {
        lemma_lerp_num_bound(a as int, b as int, i as int, m as int);
        lemma_lerp_channel_between(a as int, b as int, i as int, m as int);
    }
    let num: u128 = (m - i) as u128 * a as u128 + i as u128 * b as u128;
    let rd = round_div_u128(num, m as u128);
    rd as u8
}

/// A lazily interpolated two-color gradient over a fixed number of cells.
#[derive(Debug, Clone, Copy)]
pub struct GRange {
    rgb_0: RGB,
    rgb_1: RGB,
    n: usize,
}

impl GRange {
    /// The first endpoint color.
    pub closed spec fn spec_a(self) -> RGB {
        self.rgb_0
    }

    /// The second endpoint color.
    pub closed spec fn spec_b(self) -> RGB {
        self.rgb_1
    }

    /// The number of cells the gradient spans.
    pub closed spec fn spec_len(self) -> int {
        self.n as int
    }

    /// The style at a cell position: the interpolated color in front of
    /// the terminal's default background, or nothing past the end.
    pub open spec fn spec_get(self, i: int) -> Option<CellStyle> {
        if i >= self.spec_len() {
            None
        } else if self.spec_len() == 1 {
            Some(spec_style_of(self.spec_a()))
        } else {
            Some(spec_style_of(lerp_rgb(self.spec_a(), self.spec_b(), i, self.spec_len() - 1)))
        }
    }

    pub fn new(a: RGB, b: RGB, num_steps: usize) -> (r: Self)
        ensures
            r.spec_a() == a,
            r.spec_b() == b,
            r.spec_len() == num_steps,
    {
        Self { rgb_0: a, rgb_1: b, n: num_steps }
    }

    pub fn len(&self) -> (r: usize)
        ensures
            r == self.spec_len(),
    {
        self.n
    }

    pub fn get(&self, i: usize) -> (r: Option<CellStyle>)
        ensures
            r == self.spec_get(i as int),
    {
        if i >= self.n {
            return None;
        }
        let cs = if self.n == 1 {
            CellStyle { front: CellColor::Rgb(self.rgb_0), back: CellColor::TerminalDefault }
        } else {
            let max_den = self.n - 1;
            // The intermediate color by linear interpolation.
            let interp = RGB {
                r: lerp_channel_exec(self.rgb_0.r, self.rgb_1.r, i, max_den),
                g: lerp_channel_exec(self.rgb_0.g, self.rgb_1.g, i, max_den),
                b: lerp_channel_exec(self.rgb_0.b, self.rgb_1.b, i, max_den),
            };
            proof {
                lemma_lerp_channel_between(
                    self.rgb_0.r as int,
                    self.rgb_1.r as int,
                    i as int,
                    max_den as int,
                );
                lemma_lerp_channel_between(
                    self.rgb_0.g as int,
                    self.rgb_1.g as int,
                    i as int,
                    max_den as int,
                );
                lemma_lerp_channel_between(
                    self.rgb_0.b as int,
                    self.rgb_1.b as int,
                    i as int,
                    max_den as int,
                );
            }
            CellStyle { front: CellColor::Rgb(interp), back: CellColor::TerminalDefault }
        };
        Some(cs)
    }
}

/// A restartable cursor over the styles of one `GRange`.
pub struct GRangeIter {
    g_range: GRange,
    state: Option<usize>,
}

impl GRangeIter {
    /// The gradient being walked.
    pub closed spec fn spec_range(self) -> GRange {
        self.g_range
    }

    /// The position of the next style to yield, or `None` once exhausted.
    pub closed spec fn spec_state(self) -> Option<usize> {
        self.state
    }

    pub fn new(g_range: GRange) -> (r: Self)
        ensures
            r.spec_range() == g_range,
            r.spec_state() == Some(0usize),
    {
        Self { g_range, state: Some(0) }
    }

    /// Restarts the cursor at the first cell.
    pub fn reset(&mut self)
        ensures
            final(self).spec_range() == old(self).spec_range(),
            final(self).spec_state() == Some(0usize),
    {
        self.state = Some(0);
    }

    /// Yields the next style, or `None` once every cell has been produced.
    pub fn next(&mut self) -> (r: Option<CellStyle>)
        ensures
            final(self).spec_range() == old(self).spec_range(),
            old(self).spec_state() is None ==> r is None && final(self).spec_state() is None,
            old(self).spec_state() matches Some(i) ==> {
                &&& r == old(self).spec_range().spec_get(i as int)
                &&& (r is Some ==> final(self).spec_state() == Some((i + 1) as usize))
                &&& (r is None ==> final(self).spec_state() is None)
            },
    {
        match self.state {
            Some(i) => {
                let ret = self.g_range.get(i);
                if ret.is_some() {
                    self.state = Some(i + 1);
                } else {
                    self.state = None;
                }
                ret
            },
            None => None,
        }
    }
}

/// The color a precomputed gradient holds at position `i` of `n`: both
/// endpoints equal, or a single cell, collapse to the first color;
/// otherwise the position is interpolated across `n - 1` steps.
pub open spec fn spec_gradient_color(a: RGB, b: RGB, n: int, i: int) -> RGB {
    if a == b || n == 1 {
        a
    } else {
        lerp_rgb(a, b, i, n - 1)
    }
}

/// Law: a gradient of two or more cells starts exactly at its first
/// endpoint color and ends exactly at its second.
pub proof fn lemma_gradient_range_endpoints(a: RGB, b: RGB, n: int)
    requires
        2 <= n,
    ensures
        spec_gradient_color(a, b, n, 0) == a,
        spec_gradient_color(a, b, n, n - 1) == b,
{
    lemma_gradient_endpoints_exact(a, b, n - 1);
}

/// Law: along a gradient every channel moves monotonically from the
/// first endpoint's value toward the second's.
pub proof fn lemma_gradient_range_monotonic(a: RGB, b: RGB, n: int, i: int, j: int)
    requires
        2 <= n,
        0 <= i <= j < n,
    ensures
        a.r <= b.r ==> spec_gradient_color(a, b, n, i).r <= spec_gradient_color(a, b, n, j).r,
        b.r <= a.r ==> spec_gradient_color(a, b, n, j).r <= spec_gradient_color(a, b, n, i).r,
        a.g <= b.g ==> spec_gradient_color(a, b, n, i).g <= spec_gradient_color(a, b, n, j).g,
        b.g <= a.g ==> spec_gradient_color(a, b, n, j).g <= spec_gradient_color(a, b, n, i).g,
        a.b <= b.b ==> spec_gradient_color(a, b, n, i).b <= spec_gradient_color(a, b, n, j).b,
        b.b <= a.b ==> spec_gradient_color(a, b, n, j).b <= spec_gradient_color(a, b, n, i).b,
{
    if a == b {
    } else {
        lemma_gradient_channel_monotonic(a, b, i, j, n - 1);
    }
}

/// A gradient's styles precomputed once for a fixed bar length.
pub struct GradientRange(Vec<CellStyle>);

impl View for GradientRange {
    type V = Seq<CellStyle>;

    closed spec fn view(&self) -> Seq<CellStyle> {
        self.0@
    }
}

impl GradientRange {
    /// Builds the `n` cell styles for a gradient from `color_a` to
    /// `color_b`: endpoints exact, interior cells interpolated.
    pub fn new(color_a: (u8, u8, u8), color_b: (u8, u8, u8), n: usize) -> (r: Self)
        ensures
            r@.len() == n,
            forall|i: int|
                0 <= i < n ==> r@[i] == spec_style_of(
                    spec_gradient_color(spec_rgb_of(color_a), spec_rgb_of(color_b), n as int, i),
                ),
    {
        let color_a = RGB { r: color_a.0, g: color_a.1, b: color_a.2 };
        let color_b = RGB { r: color_b.0, g: color_b.1, b: color_b.2 };
        if color_a.r == color_b.r && color_a.g == color_b.g && color_a.b == color_b.b {
            let cs_a = CellStyle { front: CellColor::Rgb(color_a), back: CellColor::TerminalDefault };
            let mut v: Vec<CellStyle> = Vec::new();
            let mut k: usize = 0;
            while k < n
                invariant
                    k <= n,
                    cs_a == spec_style_of(color_a),
                    v@.len() == k,
                    forall|i: int| 0 <= i < k ==> v@[i] == spec_style_of(color_a),
                decreases n - k,
            {
                v.push(cs_a);
                k += 1;
            }
            GradientRange(v)
        } else if n == 0 {
            GradientRange(Vec::new())
        } else if n == 1 {
            let cs_a = CellStyle { front: CellColor::Rgb(color_a), back: CellColor::TerminalDefault };
            let mut v: Vec<CellStyle> = Vec::new();
            v.push(cs_a);
            GradientRange(v)
        } else {
            let mut v: Vec<CellStyle> = Vec::new();
            let max_den = n - 1;
            let mut k: usize = 0;
            while k <= max_den
                invariant
                    0 < max_den < n,
                    n <= usize::MAX,
                    k <= max_den + 1,
                    v@.len() == k,
                    forall|i: int|
                        0 <= i < k ==> v@[i] == spec_style_of(
                            lerp_rgb(color_a, color_b, i, max_den as int),
                        ),
                decreases max_den + 1 - k,
            {
                let new_color = RGB {
                    r: lerp_channel_exec(color_a.r, color_b.r, k, max_den),
                    g: lerp_channel_exec(color_a.g, color_b.g, k, max_den),
                    b: lerp_channel_exec(color_a.b, color_b.b, k, max_den),
                };
                proof {
                    lemma_lerp_channel_between(
                        color_a.r as int,
                        color_b.r as int,
                        k as int,
                        max_den as int,
                    );
                    lemma_lerp_channel_between(
                        color_a.g as int,
                        color_b.g as int,
                        k as int,
                        max_den as int,
                    );
                    lemma_lerp_channel_between(
                        color_a.b as int,
                        color_b.b as int,
                        k as int,
                        max_den as int,
                    );
                }
                let new_cs = CellStyle {
                    front: CellColor::Rgb(new_color),
                    back: CellColor::TerminalDefault,
                };
                v.push(new_cs);
                k += 1;
            }
            GradientRange(v)
        }
    }

    /// The number of cells the gradient covers.
    pub fn len(&self) -> (r: usize)
        ensures
            r == self@.len(),
    {
        self.0.len()
    }

    /// The style at one cell position.
    pub fn style_at(&self, i: usize) -> (r: CellStyle)
        requires
            i < self@.len(),
        ensures
            r == self@[i as int],
    {
        self.0[i]
    }

    /// All the styles, in cell order.
    pub fn styles(&self) -> (r: &Vec<CellStyle>)
        ensures
            r@ == self@,
    {
        &self.0
    }
}

} // verus!
