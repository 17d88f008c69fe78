use vstd::prelude::*;

verus! {

/// The digit value that the encoder treats as "no digit".
pub const BLANK: u8 = 10;

/// The levels of the four shared lines that feed the external decoder.
#[derive(Clone, Copy, Debug, PartialEq, Eq, Structural)]
pub struct PinPattern {
    pub a: bool,
    pub b: bool,
    pub c: bool,
    pub d: bool,
}

/// The decoder's input for `digit`: the binary code of a digit from 1 to 9,
/// line `a` the lowest bit; every other value (0 and the blank) is all low.
pub open spec fn pattern_of(digit: u8) -> PinPattern {
    if 1 <= digit <= 9 {
        PinPattern {
            a: digit % 2 == 1,
            b: (digit / 2) % 2 == 1,
            c: (digit / 4) % 2 == 1,
            d: (digit / 8) % 2 == 1,
        }
    } else {
        PinPattern { a: false, b: false, c: false, d: false }
    }
}

/// Looks up the pattern that drives the decoder for `digit`.
pub fn encode(digit: u8) -> (r: PinPattern)
    ensures
        r == pattern_of(digit),
{
    let (a, b, c, d) = match digit {
        1 => (true, false, false, false),
        2 => (false, true, false, false),
        3 => (true, true, false, false),
        4 => (false, false, true, false),
        5 => (true, false, true, false),
        6 => (false, true, true, false),
        7 => (true, true, true, false),
        8 => (false, false, false, true),
        9 => (true, false, false, true),
        _ => (false, false, false, false),
    };
    PinPattern { a, b, c, d }
}

} // verus!
