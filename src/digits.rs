use vstd::prelude::*;

verus! {

/// The four decimal digits shown for `v`: thousands, hundreds, tens, ones.
/// Values from 9999 up saturate to all nines.
pub open spec fn digits_of(v: u16) -> Seq<u8> {
    if v == 0 {
        seq![0u8, 0u8, 0u8, 0u8]
    } else if v >= 9999 {
        seq![9u8, 9u8, 9u8, 9u8]
    } else {
        seq![
            (v / 1000) as u8,
            ((v / 100) % 10) as u8,
            ((v / 10) % 10) as u8,
            (v % 10) as u8,
        ]
    }
}

/// Splits `value` into its four decimal digits, clamping at 9999.
pub fn decompose(value: u16) -> (r: [u8; 4])
    ensures
        r@ == digits_of(value),
{
    if value == 0 {
        [0, 0, 0, 0]
    } else if value >= 9999 {
        [9, 9, 9, 9]
    } else {
        let thousands: u16 = value / 1000;
        let rest: u16 = value % 1000;
        let hundreds: u16 = rest / 100;
        let rest2: u16 = rest % 100;
        let tens: u16 = rest2 / 10;
        let ones: u16 = rest2 % 10;
        assert(hundreds == (value / 100) % 10) by (nonlinear_arith)
            requires
                rest == value % 1000,
                hundreds == rest / 100,
        ;
        assert(tens == (value / 10) % 10) by (nonlinear_arith)
            requires
                rest2 == (value % 1000) % 100,
                tens == rest2 / 10,
        ;
        assert(ones == value % 10) by (nonlinear_arith)
            requires
                rest2 == (value % 1000) % 100,
                ones == rest2 % 10,
        ;
        let r = [thousands as u8, hundreds as u8, tens as u8, ones as u8];
        assert(r@ =~= digits_of(value));
        r
    }
}

/// Every value below the saturation point is rebuilt from its digits by
/// positional weighting.
pub proof fn lemma_decompose_reconstructs(v: u16)
    requires
        v <= 9998,
    ensures
        1000 * digits_of(v)[0] + 100 * digits_of(v)[1] + 10 * digits_of(v)[2] + digits_of(v)[3]
            == v,
{
    if v != 0 {
        let x = v as int;
        assert(1000 * (x / 1000) + 100 * ((x / 100) % 10) + 10 * ((x / 10) % 10) + x % 10 == x)
            by (nonlinear_arith)
            requires
                0 < x <= 9998,
        ;
    }
}

/// A pair of values to show, one per bank.
pub struct DisplayValues {
    pub left: u16,
    pub right: u16,
}

/// The digits currently shown on each bank.
pub struct EncodedDisplayValues {
    pub left: [u8; 4],
    pub right: [u8; 4],
}

impl EncodedDisplayValues {
    /// All digits zero: the state before any value has arrived.
    pub fn new() -> (r: EncodedDisplayValues)
        ensures
            r.left@ == seq![0u8, 0u8, 0u8, 0u8],
            r.right@ == seq![0u8, 0u8, 0u8, 0u8],
    {
        let r = EncodedDisplayValues { left: [0, 0, 0, 0], right: [0, 0, 0, 0] };
        assert(r.left@ =~= seq![0u8, 0u8, 0u8, 0u8]);
        assert(r.right@ =~= seq![0u8, 0u8, 0u8, 0u8]);
        r
    }
}

impl DisplayValues {
    /// Decomposes both values into `output`, replacing what it held.
    pub fn encode_into(&self, output: &mut EncodedDisplayValues)
        ensures
            final(output).left@ == digits_of(self.left),
            final(output).right@ == digits_of(self.right),
    {
        output.left = decompose(self.left);
        output.right = decompose(self.right);
    }
}

} // verus!
