use crate::block_char::BlockChar;
use crate::block_line::BlockLine;
use crate::color::CellStyle;
use crate::direction::Direction;
use crate::easing::{spec_pos, Easing, MAX_EASING_STEPS};
use crate::gradient_range::GradientRange;
use vstd::prelude::*;

verus! {

/// One cell write for the host renderer: a physical coordinate, the
/// glyph to put there, and the ink to draw it with.
#[derive(Copy, Clone, PartialEq, Eq, Structural, Debug)]
pub struct DrawCmd {
    pub x: usize,
    pub y: usize,
    pub glyph: BlockChar,
    pub style: CellStyle,
}

/// The physical coordinate of logical cell `i` of a bar anchored at
/// `(x, y)`: rightward and downward bars count away from the anchor,
/// leftward and upward bars count toward it.
pub open spec fn spec_cell_coord(x: int, y: int, max_len: int, i: int, dir: Direction) -> (
    int,
    int,
) {
    match dir {
        Direction::Right => (x + i, y),
        Direction::Left => (x + (max_len - i) - 1, y),
        Direction::Down => (x, y + i),
        Direction::Up => (x, y + (max_len - i) - 1),
    }
}

/// The style logical cell `i` is drawn with: the gradient's style,
/// inverted when the glyph asks for it.
pub open spec fn spec_cell_style(glyph: BlockChar, grad: CellStyle) -> CellStyle {
    if glyph.spec_needs_inversion() {
        CellStyle { front: grad.back, back: grad.front }
    } else {
        grad
    }
}

/// The draw command for logical cell `i` of one bar line.
pub open spec fn spec_line_cmd(
    x: int,
    y: int,
    grad: Seq<CellStyle>,
    line: BlockLine,
    max_len: int,
    i: int,
    dir: Direction,
) -> DrawCmd {
    let glyph = line.spec_char_at(i);
    let coord = spec_cell_coord(x, y, max_len, i, dir);
    DrawCmd {
        x: coord.0 as usize,
        y: coord.1 as usize,
        glyph,
        style: spec_cell_style(glyph, grad[i]),
    }
}

/// The whole command sequence of one bar line: one command per cell,
/// over as many cells as both the line and the gradient cover.
pub open spec fn spec_line_cmds(
    x: int,
    y: int,
    grad: Seq<CellStyle>,
    max_len: int,
    filled_8ths: int,
    dir: Direction,
) -> Seq<DrawCmd> {
    let line = spec_built_line(max_len, filled_8ths, dir);
    let count = if max_len <= grad.len() {
        max_len
    } else {
        grad.len() as int
    };
    Seq::new(count as nat, |i: int| spec_line_cmd(x, y, grad, line, max_len, i, dir))
}

/// The line `BlockLine::from_len_and_8ths` lays out, as a value.
pub open spec fn spec_built_line(max_len: int, filled_8ths: int, dir: Direction) -> BlockLine {
    if filled_8ths / 8 >= max_len {
        BlockLine { filled_blocks: max_len as usize, tail: None, dir }
    } else {
        BlockLine {
            filled_blocks: (filled_8ths / 8) as usize,
            tail: Some(
                (
                    crate::remainder::Remainder::spec_from_8ths(filled_8ths),
                    (max_len - filled_8ths / 8 - 1) as usize,
                ),
            ),
            dir,
        }
    }
}

/// Lays one bar line out as draw commands: for each logical cell, the
/// line's glyph, the gradient's style (inverted where the glyph needs
/// it), and the physical coordinate for the direction.  Produces one
/// command per cell, stopping at whichever of the line and the gradient
/// is shorter.
pub fn gradient_line_cmds(
    x: usize,
    y: usize,
    gradient_range: &GradientRange,
    max_len: usize,
    num_8ths: usize,
    dir: Direction,
) -> (r: Vec<DrawCmd>)
    requires
        x + max_len <= usize::MAX,
        y + max_len <= usize::MAX,
    ensures
        r@ == spec_line_cmds(
            x as int,
            y as int,
            gradient_range@,
            max_len as int,
            num_8ths as int,
            dir,
        ),
{
    let block_line = BlockLine::from_len_and_8ths(max_len, num_8ths, dir);
    let grad_len = gradient_range.len();
    let count = if max_len < grad_len {
        max_len
    } else {
        grad_len
    };
    let mut cmds: Vec<DrawCmd> = Vec::new();
    let ghost target = spec_line_cmds(
        x as int,
        y as int,
        gradient_range@,
        max_len as int,
        num_8ths as int,
        dir,
    );
    assert(target.len() == count);
    let mut i: usize = 0;
    while i < count
        invariant
            i <= count,
            count <= max_len,
            count <= gradient_range@.len(),
            x + max_len <= usize::MAX,
            y + max_len <= usize::MAX,
            block_line == spec_built_line(max_len as int, num_8ths as int, dir),
            target == spec_line_cmds(
                x as int,
                y as int,
                gradient_range@,
                max_len as int,
                num_8ths as int,
                dir,
            ),
            target.len() == count,
            cmds@.len() == i,
            forall|j: int| 0 <= j < i ==> cmds@[j] == target[j],
        decreases count - i,
    {
        let bc = block_line.char_at(i);
        let grad_style = gradient_range.style_at(i);
        let style = if bc.needs_inversion() {
            crate::color::invert_color_style(grad_style)
        } else {
            grad_style
        };
        let (tx, ty) = match dir {
            Direction::Right => (x + i, y),
            Direction::Left => (x + (max_len - i) - 1, y),
            Direction::Down => (x, y + i),
            Direction::Up => (x, y + (max_len - i) - 1),
        };
        cmds.push(DrawCmd { x: tx, y: ty, glyph: bc, style });
        assert(cmds@[i as int] == target[i as int]);
        i += 1;
    }
    assert(cmds@ =~= target);
    cmds
}

/// The draw commands of one whole frame of the demo spectrum: the same
/// eased fill drawn four times, as a rightward bar in row 0, a leftward
/// bar in row 1, an upward bar in column 0, and a downward bar in
/// column 1.
pub open spec fn spec_spectrum_frame(
    grad: Seq<CellStyle>,
    max_len: int,
    lin_8ths: int,
    easing: Easing,
) -> Seq<DrawCmd> {
    let eased = spec_pos(easing, lin_8ths, 8 * max_len);
    spec_line_cmds(0, 0, grad, max_len, eased, Direction::Right) + spec_line_cmds(
        0,
        1,
        grad,
        max_len,
        eased,
        Direction::Left,
    ) + spec_line_cmds(0, 0, grad, max_len, eased, Direction::Up) + spec_line_cmds(
        1,
        0,
        grad,
        max_len,
        eased,
        Direction::Down,
    )
}

/// Composes one frame of the demo spectrum: eases the linear tick count
/// into a fill amount, then lays the same bar out in all four
/// directions.
pub fn spectrum_frame(
    gradient_range: &GradientRange,
    max_len: usize,
    lin_8ths: usize,
    easing: Easing,
) -> (r: Vec<DrawCmd>)
    requires
        8 * max_len <= MAX_EASING_STEPS,
    ensures
        r@ == spec_spectrum_frame(gradient_range@, max_len as int, lin_8ths as int, easing),
{
    let eased_8ths = easing.pos(lin_8ths, 8 * max_len);
    let mut cmds = gradient_line_cmds(0, 0, gradient_range, max_len, eased_8ths, Direction::Right);
    let mut left = gradient_line_cmds(0, 1, gradient_range, max_len, eased_8ths, Direction::Left);
    let mut up = gradient_line_cmds(0, 0, gradient_range, max_len, eased_8ths, Direction::Up);
    let mut down = gradient_line_cmds(1, 0, gradient_range, max_len, eased_8ths, Direction::Down);
    cmds.append(&mut left);
    cmds.append(&mut up);
    cmds.append(&mut down);
    cmds
}

/// One decision of the host's tick loop: the counter advances by one
/// eighth per tick until it has passed `limit`, then the animation
/// stops.
pub fn next_tick(lin_8ths: usize, limit: usize) -> (r: Option<usize>)
    requires
        limit < usize::MAX,
    ensures
        lin_8ths > limit ==> r is None,
        lin_8ths <= limit ==> r == Some((lin_8ths + 1) as usize),
{
    if lin_8ths > limit {
        None
    } else {
        Some(lin_8ths + 1)
    }
}

} // verus!
