//! What can go wrong with a tree of deltas in a pack.

use vstd::prelude::*;
use vstd::string::StringExecFns;

verus! {

/// The decimal digits of a number, without zeros before it.
pub open spec fn decimal(number: u64) -> Seq<char>
    decreases number,
{
    let digit = (48 + number % 10) as char;
    if number < 10 {
        seq![digit]
    } else {
        decimal(number / 10).push(digit)
    }
}

fn show_digit(digit: u64) -> (shown: &'static str)
    requires
        digit < 10,
    ensures
        shown@ == seq![(48 + digit) as char],
{
    proof {
        reveal_strlit("0");
        reveal_strlit("1");
        reveal_strlit("2");
        reveal_strlit("3");
        reveal_strlit("4");
        reveal_strlit("5");
        reveal_strlit("6");
        reveal_strlit("7");
        reveal_strlit("8");
        reveal_strlit("9");
    }
    match digit {
        0 => "0",
        1 => "1",
        2 => "2",
        3 => "3",
        4 => "4",
        5 => "5",
        6 => "6",
        7 => "7",
        8 => "8",
        _ => "9",
    }
}

fn show_number(number: u64) -> (shown: String)
    ensures
        shown@ == decimal(number),
    decreases number,
{
    let digit = show_digit(number % 10);
    if number < 10 {
        digit.to_owned()
    } else {
        let shown = show_number(number / 10).concat(digit);
        assert(shown@ =~= decimal(number));
        shown
    }
}

/// What keeps an item from being added to a tree of deltas.
#[derive(Clone, Copy, Debug, Eq, PartialEq, Structural)]
pub enum Error {
    /// The offset of an item in its pack is not greater than that of the item before.
    InvariantIncreasingPackOffset {
        /// The last seen pack offset
        last_pack_offset: u64,
        /// The invariant violating offset
        pack_offset: u64,
    },
}

impl Error {
    /// What the error says.
    pub fn message(&self) -> (text: String)
        ensures
            self matches Error::InvariantIncreasingPackOffset { last_pack_offset, pack_offset }
                ==> text@ == "Pack offsets must only increment. The previous pack offset was "@
                + decimal(*last_pack_offset) + ", the current one is "@ + decimal(*pack_offset),
    {
        match self {
            Error::InvariantIncreasingPackOffset { last_pack_offset, pack_offset } => {
                let last = show_number(*last_pack_offset);
                let current = show_number(*pack_offset);
                "Pack offsets must only increment. The previous pack offset was ".to_owned().concat(
                    last.as_str(),
                ).concat(", the current one is ").concat(current.as_str())
            },
        }
    }
}

} // verus!
