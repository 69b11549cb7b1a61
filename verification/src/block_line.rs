use crate::block_char::BlockChar;
use crate::direction::Direction;
use crate::remainder::Remainder;
use vstd::prelude::*;

verus! {

/// One full-length progress indicator: a run of fully filled cells,
/// optionally followed by one partially filled boundary cell and a run of
/// blank cells.
#[derive(Copy, Clone)]
pub struct BlockLine {
    /// Number of filled blocks.
    pub filled_blocks: usize,
    /// Optional partial block and number of empty blocks after it.
    /// If `None`, then the block line is exactly full.
    pub tail: Option<(Remainder, usize)>,
    /// Direction to produce blocks in.
    pub dir: Direction,
}

impl BlockLine {
    /// Total number of cells this line renders.
    pub open spec fn spec_char_len(self) -> int {
        self.filled_blocks + match self.tail {
            Some((_, empty_blocks)) => 1 + empty_blocks,
            None => 0,
        }
    }

    /// The cell count fits the machine word, so the line can be measured.
    pub open spec fn wf(self) -> bool {
        self.spec_char_len() <= usize::MAX
    }

    /// The sub-cell fill amount of the boundary cell; a full line has a
    /// remainder of zero.
    pub open spec fn spec_rem(self) -> Remainder {
        match self.tail {
            Some((rem, _)) => rem,
            None => Remainder::E0,
        }
    }

    /// The glyph at a cell index: full below the filled run, the selected
    /// partial at the boundary cell when one is present, blank above.
    pub open spec fn spec_char_at(self, index: int) -> BlockChar {
        if index < self.filled_blocks {
            BlockChar::FF
        } else if index == self.filled_blocks && self.tail is Some {
            BlockChar::spec_select(self.tail->Some_0.0, self.dir)
        } else {
            BlockChar::NL
        }
    }

    pub fn char_len(&self) -> (r: usize)
        requires
            self.wf(),
        ensures
            r == self.spec_char_len(),
    {
        self.filled_blocks + if let Some((_, empty_blocks)) = self.tail {
            1 + empty_blocks
        } else {
            0
        }
    }

    pub fn _rem(&self) -> (r: Remainder)
        ensures
            r == self.spec_rem(),
    {
        if let Some((rem, _)) = self.tail {
            rem
        } else {
            // A full block line has a remainder of 0.
            Remainder::E0
        }
    }

    pub fn char_at(&self, index: usize) -> (r: BlockChar)
        ensures
            r == self.spec_char_at(index as int),
    {
        if index < self.filled_blocks {
            BlockChar::FF
        } else if index == self.filled_blocks {
            match self.tail {
                Some((rem, _)) => BlockChar::select(rem, self.dir),
                None => BlockChar::NL,
            }
        } else {
            BlockChar::NL
        }
    }

    /// Lays out a line of exactly `max_len` cells holding `filled_8ths`
    /// eighths of fill.  A fill of `max_len * 8` eighths or more saturates
    /// to a fully filled line; otherwise the boundary cell holds the fill
    /// reduced modulo 8 and the rest of the line is blank.
    pub fn from_len_and_8ths(max_len: usize, filled_8ths: usize, dir: Direction) -> (r: Self)
        ensures
            r.wf(),
            r.dir == dir,
            r.spec_char_len() == max_len,
            filled_8ths as int / 8 >= max_len ==> r == (BlockLine {
                filled_blocks: max_len,
                tail: None,
                dir,
            }),
            filled_8ths as int / 8 < max_len ==> r == (BlockLine {
                filled_blocks: (filled_8ths as int / 8) as usize,
                tail: Some(
                    (
                        Remainder::spec_from_8ths(filled_8ths as int),
                        (max_len - filled_8ths as int / 8 - 1) as usize,
                    ),
                ),
                dir,
            }),
    {
        let filled_blocks = filled_8ths / 8;
        let res = if filled_blocks >= max_len {
            BlockLine { filled_blocks: max_len, tail: None, dir }
        } else {
            BlockLine {
                filled_blocks,
                tail: Some((Remainder::from_8ths(filled_8ths), max_len - filled_blocks - 1)),
                dir,
            }
        };
        assert(max_len == res.spec_char_len());
        res
    }

    /// A restartable cursor over this line's glyphs, starting at cell 0.
    pub fn into_iter(self) -> (r: BlockLineIter)
        ensures
            r.line() == self,
            r.index() == 0,
    {
        BlockLineIter { block_line: self, curr_ch_idx: 0 }
    }
}

/// A finite cursor over the glyphs of one `BlockLine`.
#[derive(Copy, Clone)]
pub struct BlockLineIter {
    block_line: BlockLine,
    curr_ch_idx: usize,
}

impl BlockLineIter {
    /// The line being walked.
    pub closed spec fn line(self) -> BlockLine {
        self.block_line
    }

    /// The index of the next cell to yield.
    pub closed spec fn index(self) -> int {
        self.curr_ch_idx as int
    }

    /// Yields the glyph of the next cell, or `None` once every cell of the
    /// line has been produced.
    pub fn next(&mut self) -> (r: Option<BlockChar>)
        requires
            old(self).line().wf(),
        ensures
            final(self).line() == old(self).line(),
            old(self).index() < old(self).line().spec_char_len() ==> {
                &&& r == Some(old(self).line().spec_char_at(old(self).index()))
                &&& final(self).index() == old(self).index() + 1
            },
            old(self).index() >= old(self).line().spec_char_len() ==> {
                &&& r is None
                &&& final(self).index() == old(self).index()
            },
    {
        if self.curr_ch_idx < self.block_line.char_len() {
            let bc = self.block_line.char_at(self.curr_ch_idx);
            self.curr_ch_idx += 1;
            Some(bc)
        } else {
            None
        }
    }
}

} // verus!
