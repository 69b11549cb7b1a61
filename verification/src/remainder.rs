use vstd::prelude::*;

verus! {

/// A sub-cell fill amount: how many eighths of one character cell are
/// filled, always in the range 0..=7.  Amounts of 8 or more eighths roll
/// into an additional fully filled cell upstream and never reach this type.
#[derive(Copy, Clone, PartialEq, Eq, Structural, PartialOrd, Ord, Debug)]
pub enum Remainder {
    E0,
    E1,
    E2,
    E3,
    E4,
    E5,
    E6,
    E7,
}

impl Remainder {
    /// The number of eighths this remainder stands for, as a mathematical
    /// integer in 0..=7.
    pub open spec fn as_int(self) -> int {
        match self {
            Remainder::E0 => 0,
            Remainder::E1 => 1,
            Remainder::E2 => 2,
            Remainder::E3 => 3,
            Remainder::E4 => 4,
            Remainder::E5 => 5,
            Remainder::E6 => 6,
            Remainder::E7 => 7,
        }
    }

    /// The remainder standing for `n` eighths, reduced modulo 8.
    pub open spec fn spec_from_8ths(n: int) -> Remainder {
        let m = n % 8;
        if m == 0 {
            Remainder::E0
        } else if m == 1 {
            Remainder::E1
        } else if m == 2 {
            Remainder::E2
        } else if m == 3 {
            Remainder::E3
        } else if m == 4 {
            Remainder::E4
        } else if m == 5 {
            Remainder::E5
        } else if m == 6 {
            Remainder::E6
        } else {
            Remainder::E7
        }
    }

    pub fn as_8ths(&self) -> (r: usize)
        ensures
            r == self.as_int(),
    {
        match *self {
            Remainder::E0 => 0,
            Remainder::E1 => 1,
            Remainder::E2 => 2,
            Remainder::E3 => 3,
            Remainder::E4 => 4,
            Remainder::E5 => 5,
            Remainder::E6 => 6,
            Remainder::E7 => 7,
        }
    }

    pub fn from_8ths(n_8ths: usize) -> (r: Self)
        ensures
            r == Remainder::spec_from_8ths(n_8ths as int),
            r.as_int() == n_8ths as int % 8,
    {
        match n_8ths % 8 {
            0 => Remainder::E0,
            1 => Remainder::E1,
            2 => Remainder::E2,
            3 => Remainder::E3,
            4 => Remainder::E4,
            5 => Remainder::E5,
            6 => Remainder::E6,
            _ => Remainder::E7,
        }
    }
}

/// Law: converting a count of eighths to a remainder and reading it back
/// yields the count reduced modulo 8.
pub proof fn lemma_from_8ths_round_trip(n: int)
    requires
        n >= 0,
    ensures
        Remainder::spec_from_8ths(n).as_int() == n % 8,
{
}

} // verus!
