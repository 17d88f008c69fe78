use vstd::prelude::*;
use crate::channel::DisplayController;
use crate::digits::{digits_of, DisplayValues, EncodedDisplayValues};
use crate::encoder::{encode, pattern_of, PinPattern};

verus! {

/// Number of digit-enable lines wired to the display.
pub const ENABLE_LINES: u8 = 10;

/// Enable line of the left bank's thousands digit; the bank uses it and the three after it.
pub const LEFT_FIRST_LINE: u8 = 1;

/// Enable line of the right bank's thousands digit; the bank uses it and the three after it.
pub const RIGHT_FIRST_LINE: u8 = 6;

/// One step of a refresh cycle, carried out in order by whoever owns the pins.
#[derive(Clone, Copy, Debug, PartialEq, Eq, Structural)]
pub enum Action {
    /// Drive the four shared encoder lines.
    Encode(PinPattern),
    /// Drive the given enable line high.
    Enable(u8),
    /// Wait one digit dwell time.
    Dwell,
    /// Drive the given enable line low.
    Disable(u8),
}

/// One digit lit at one position: the enable line to assert and the digit.
pub struct Strobe {
    pub line: u8,
    pub digit: u8,
}

/// Whether each of the four positions of a bank is lit: the leading two only
/// while the digits so far are not all zero, the last two always.
pub open spec fn lit_positions(d: Seq<u8>) -> Seq<bool> {
    seq![d[0] != 0, d[0] != 0 || d[1] != 0, true, true]
}

/// The strobes of one bank, most significant first, skipping dark positions.
pub open spec fn bank_strobes(d: Seq<u8>, first: u8) -> Seq<Strobe> {
    let lit = lit_positions(d);
    let s0 = if lit[0] { seq![Strobe { line: first, digit: d[0] }] } else { Seq::empty() };
    let s1 = if lit[1] { seq![Strobe { line: (first + 1) as u8, digit: d[1] }] } else { Seq::empty() };
    s0 + s1 + seq![
        Strobe { line: (first + 2) as u8, digit: d[2] },
        Strobe { line: (first + 3) as u8, digit: d[3] },
    ]
}

/// The strobes of a whole cycle: the left bank, then the right bank.
pub open spec fn frame_strobes(left: Seq<u8>, right: Seq<u8>) -> Seq<Strobe> {
    bank_strobes(left, LEFT_FIRST_LINE) + bank_strobes(right, RIGHT_FIRST_LINE)
}

/// Showing one digit: set the pattern, assert its line, hold, release.
pub open spec fn strobe_actions(s: Strobe) -> Seq<Action> {
    seq![Action::Encode(pattern_of(s.digit)), Action::Enable(s.line), Action::Dwell, Action::Disable(s.line)]
}

/// The actions of a sequence of strobes, one after the other.
pub open spec fn actions_of(s: Seq<Strobe>) -> Seq<Action>
    decreases s.len(),
{
    if s.len() == 0 {
        Seq::empty()
    } else {
        actions_of(s.drop_last()) + strobe_actions(s.last())
    }
}

/// The effect of one action on the asserted enable line (`None` inside: none
/// asserted). The outer `None` means that a second line was asserted while one
/// was still high.
pub open spec fn step(high: Option<u8>, a: Action) -> Option<Option<u8>> {
    match a {
        Action::Enable(l) => if high is None { Some(Some(l)) } else { None },
        Action::Disable(l) => if high == Some(l) { Some(None) } else { Some(high) },
        _ => Some(high),
    }
}

/// The enable line asserted after carrying out `acts` from an all-low start,
/// or `None` once two lines have been high together.
pub open spec fn enable_state(acts: Seq<Action>) -> Option<Option<u8>>
    decreases acts.len(),
{
    if acts.len() == 0 {
        Some(None)
    } else {
        match enable_state(acts.drop_last()) {
            Some(high) => step(high, acts.last()),
            None => None,
        }
    }
}

proof fn lemma_actions_push(s: Seq<Strobe>, t: Strobe)
    ensures
        actions_of(s.push(t)) == actions_of(s) + strobe_actions(t),
{
    assert(s.push(t).drop_last() =~= s);
}

proof fn lemma_actions_concat(a: Seq<Strobe>, b: Seq<Strobe>)
    ensures
        actions_of(a + b) == actions_of(a) + actions_of(b),
    decreases b.len(),
{
    if b.len() == 0 {
        assert(a + b =~= a);
        assert(actions_of(a) + actions_of(b) =~= actions_of(a));
    } else {
        let c = b.drop_last();
        lemma_actions_concat(a, c);
        assert((a + b).drop_last() =~= a + c);
        assert((a + b).last() == b.last());
        assert(actions_of(a + b) =~= actions_of(a) + actions_of(b));
    }
}

proof fn lemma_state_push(x: Seq<Action>, a: Action)
    ensures
        enable_state(x.push(a)) == match enable_state(x) {
            Some(high) => step(high, a),
            None => None,
        },
{
    assert(x.push(a).drop_last() =~= x);
}

proof fn lemma_state_prefix(x: Seq<Action>, k: int)
    requires
        0 <= k <= x.len(),
        enable_state(x) is Some,
    ensures
        enable_state(x.take(k)) is Some,
    decreases x.len(),
{
    if k == x.len() {
        assert(x.take(k) =~= x);
    } else {
        let y = x.drop_last();
        assert(y.take(k) =~= x.take(k));
        lemma_state_prefix(y, k);
    }
}

proof fn lemma_strobes_end_low(s: Seq<Strobe>)
    ensures
        enable_state(actions_of(s)) == Some(None::<u8>),
    decreases s.len(),
{
    if s.len() > 0 {
        let p = s.drop_last();
        let t = s.last();
        lemma_strobes_end_low(p);
        let a = actions_of(p);
        let b = strobe_actions(t);
        assert(a + b =~= a.push(b[0]).push(b[1]).push(b[2]).push(b[3]));
        lemma_state_push(a, b[0]);
        lemma_state_push(a.push(b[0]), b[1]);
        lemma_state_push(a.push(b[0]).push(b[1]), b[2]);
        lemma_state_push(a.push(b[0]).push(b[1]).push(b[2]), b[3]);
    }
}

/// However the digits stand, carrying out a refresh cycle never has two
/// enable lines high at the same moment, and leaves every line low.
pub proof fn lemma_refresh_one_line_at_a_time(left: Seq<u8>, right: Seq<u8>)
    requires
        left.len() == 4,
        right.len() == 4,
    ensures
        forall|k: int|
            0 <= k <= actions_of(frame_strobes(left, right)).len() ==> (#[trigger] enable_state(
                actions_of(frame_strobes(left, right)).take(k),
            )) is Some,
        enable_state(actions_of(frame_strobes(left, right))) == Some(None::<u8>),
{
    let x = actions_of(frame_strobes(left, right));
    lemma_strobes_end_low(frame_strobes(left, right));
    assert forall|k: int| 0 <= k <= x.len() implies (#[trigger] enable_state(x.take(k))) is Some by {
        lemma_state_prefix(x, k);
    }
}

fn push_strobe(acts: &mut Vec<Action>, line: u8, digit: u8)
    ensures
        final(acts)@ == old(acts)@ + strobe_actions(Strobe { line, digit }),
{
    acts.push(Action::Encode(encode(digit)));
    acts.push(Action::Enable(line));
    acts.push(Action::Dwell);
    acts.push(Action::Disable(line));
    assert(final(acts)@ =~= old(acts)@ + strobe_actions(Strobe { line, digit }));
}

/// Appends the actions that show one bank whose thousands digit sits on
/// enable line `first`, blanking leading zeros on the first two positions.
fn plan_bank(acts: &mut Vec<Action>, d: &[u8; 4], first: u8)
    requires
        first <= 6,
    ensures
        final(acts)@ == old(acts)@ + actions_of(bank_strobes(d@, first)),
{
    let ghost start = acts@;
    let ghost mut done: Seq<Strobe> = Seq::empty();
    assert(acts@ =~= start + actions_of(done));
    let mut skipping: bool = d[0] == 0;
    if !skipping {
        push_strobe(acts, first, d[0]);
        proof {
            lemma_actions_push(done, Strobe { line: first, digit: d[0] });
            done = done.push(Strobe { line: first, digit: d[0] });
        }
    }
    skipping = skipping && d[1] == 0;
    if !skipping {
        push_strobe(acts, first + 1, d[1]);
        proof {
            lemma_actions_push(done, Strobe { line: (first + 1) as u8, digit: d[1] });
            done = done.push(Strobe { line: (first + 1) as u8, digit: d[1] });
        }
    }
    push_strobe(acts, first + 2, d[2]);
    proof {
        lemma_actions_push(done, Strobe { line: (first + 2) as u8, digit: d[2] });
        done = done.push(Strobe { line: (first + 2) as u8, digit: d[2] });
    }
    push_strobe(acts, first + 3, d[3]);
    proof {
        lemma_actions_push(done, Strobe { line: (first + 3) as u8, digit: d[3] });
        done = done.push(Strobe { line: (first + 3) as u8, digit: d[3] });
        assert(done =~= bank_strobes(d@, first));
    }
}

/// The multiplexer's state: the digits it shows, kept until a new pair arrives.
pub struct Display {
    values: EncodedDisplayValues,
}

impl View for Display {
    type V = (Seq<u8>, Seq<u8>);

    /// The digits of the left and of the right bank.
    closed spec fn view(&self) -> (Seq<u8>, Seq<u8>) {
        (self.values.left@, self.values.right@)
    }
}

impl Display {
    /// A multiplexer showing all-zero digits, and the empty slot that feeds it.
    pub fn new() -> (r: (Display, DisplayController))
        ensures
            r.0@ == (seq![0u8, 0u8, 0u8, 0u8], seq![0u8, 0u8, 0u8, 0u8]),
            r.1@ == None::<(u16, u16)>,
    {
        (Display { values: EncodedDisplayValues::new() }, DisplayController::new())
    }

    /// One refresh cycle: takes in `incoming` when a pair was pending, then
    /// returns the actions that light the digits of both banks in turn.
    pub fn refresh(&mut self, incoming: Option<DisplayValues>) -> (r: Vec<Action>)
        ensures
            final(self)@ == match incoming {
                Some(v) => (digits_of(v.left), digits_of(v.right)),
                None => old(self)@,
            },
            r@ == actions_of(frame_strobes(final(self)@.0, final(self)@.1)),
    {
        if let Some(v) = incoming {
            v.encode_into(&mut self.values);
        }
        let mut acts: Vec<Action> = Vec::new();
        plan_bank(&mut acts, &self.values.left, LEFT_FIRST_LINE);
        plan_bank(&mut acts, &self.values.right, RIGHT_FIRST_LINE);
        proof {
            lemma_actions_concat(
                bank_strobes(self.values.left@, LEFT_FIRST_LINE),
                bank_strobes(self.values.right@, RIGHT_FIRST_LINE),
            );
            assert(acts@ =~= actions_of(frame_strobes(self.values.left@, self.values.right@)));
        }
        acts
    }

    /// The digits of the left bank.
    pub fn left_digits(&self) -> (r: [u8; 4])
        ensures
            r@ == self@.0,
    {
        self.values.left
    }

    /// The digits of the right bank.
    pub fn right_digits(&self) -> (r: [u8; 4])
        ensures
            r@ == self@.1,
    {
        self.values.right
    }
}

} // verus!
