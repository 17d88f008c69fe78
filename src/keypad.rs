use vstd::prelude::*;

verus! {

/// Number of logical buttons: the direct button, then two per matrix row.
pub const BUTTONS: usize = 11;

/// Number of strobed rows in the matrix.
pub const ROWS: usize = 5;

/// The button index of the direct-wired button.
pub const PEN: u8 = 0;

/// A change of one button's state: which button, and whether it is now down.
#[derive(Clone, Copy, Debug, PartialEq, Eq, Structural)]
pub struct ButtonTransition {
    pub button: u8,
    pub pressed: bool,
}

/// The levels read in one scan cycle: the direct button, and under each row
/// the two columns.
pub struct KeypadSample {
    pub pen: bool,
    pub rows: [[bool; 2]; 5],
}

/// The index of the button under `row` at column `col`.
pub open spec fn button_index(row: int, col: int) -> int {
    1 + 2 * row + col
}

/// The levels of a sample in button order.
pub open spec fn sample_levels(s: KeypadSample) -> Seq<bool> {
    seq![
        s.pen,
        s.rows[0][0], s.rows[0][1],
        s.rows[1][0], s.rows[1][1],
        s.rows[2][0], s.rows[2][1],
        s.rows[3][0], s.rows[3][1],
        s.rows[4][0], s.rows[4][1],
    ]
}

/// The transition of button `i` between two states, if it changed.
pub open spec fn change_at(before: Seq<bool>, after: Seq<bool>, i: int) -> Seq<ButtonTransition> {
    if before[i] != after[i] {
        seq![ButtonTransition { button: i as u8, pressed: after[i] }]
    } else {
        Seq::empty()
    }
}

/// The transitions of the first `n` buttons, in button order.
pub open spec fn changes(before: Seq<bool>, after: Seq<bool>, n: nat) -> Seq<ButtonTransition>
    decreases n,
{
    if n == 0 {
        Seq::empty()
    } else {
        changes(before, after, (n - 1) as nat) + change_at(before, after, n - 1)
    }
}

/// Scanning a state that has not changed reports nothing.
pub proof fn lemma_rescan_is_quiet(state: Seq<bool>)
    requires
        state.len() == BUTTONS,
    ensures
        changes(state, state, BUTTONS as nat) == Seq::<ButtonTransition>::empty(),
{
    lemma_no_changes(state, BUTTONS as nat);
}

proof fn lemma_no_changes(state: Seq<bool>, n: nat)
    requires
        n <= state.len(),
    ensures
        changes(state, state, n) == Seq::<ButtonTransition>::empty(),
    decreases n,
{
    if n > 0 {
        lemma_no_changes(state, (n - 1) as nat);
        assert(changes(state, state, n) =~= Seq::<ButtonTransition>::empty());
    }
}

proof fn lemma_one_change(before: Seq<bool>, after: Seq<bool>, j: int, n: nat)
    requires
        n <= before.len(),
        after.len() == before.len(),
        0 <= j < before.len(),
        forall|i: int| 0 <= i < before.len() && i != j ==> before[i] == after[i],
    ensures
        changes(before, after, n) == (if j < n { change_at(before, after, j) } else {
            Seq::<ButtonTransition>::empty()
        }),
    decreases n,
{
    if n > 0 {
        lemma_one_change(before, after, j, (n - 1) as nat);
        let c = changes(before, after, n);
        if j < n - 1 {
            assert(c =~= change_at(before, after, j));
        } else if j == n - 1 {
            assert(c =~= change_at(before, after, j));
        } else {
            assert(c =~= Seq::<ButtonTransition>::empty());
        }
    }
}

/// When a single released button goes down between two scans and every
/// other level stays, exactly one transition is reported: that button, pressed.
pub proof fn lemma_single_press(state: Seq<bool>, row: int, col: int)
    requires
        state.len() == BUTTONS,
        0 <= row < ROWS,
        0 <= col < 2,
        !state[button_index(row, col)],
    ensures
        changes(state, state.update(button_index(row, col), true), BUTTONS as nat) == seq![
            ButtonTransition { button: button_index(row, col) as u8, pressed: true },
        ],
{
    let j = button_index(row, col);
    let after = state.update(j, true);
    lemma_one_change(state, after, j, BUTTONS as nat);
    assert(change_at(state, after, j) =~= seq![ButtonTransition { button: j as u8, pressed: true }]);
}

/// The name printed for each button.
pub open spec fn name_of(button: u8) -> Seq<char> {
    if button == 0 { "Pen"@ }
    else if button == 1 { "Up"@ }
    else if button == 2 { "P1"@ }
    else if button == 3 { "Right"@ }
    else if button == 4 { "Pause"@ }
    else if button == 5 { "Fast"@ }
    else if button == 6 { "Enter"@ }
    else if button == 7 { "Down"@ }
    else if button == 8 { "P2"@ }
    else if button == 9 { "Left"@ }
    else { "Home"@ }
}

/// The name of `button`, from the fixed table of rows and columns.
pub fn button_name(button: u8) -> (r: &'static str)
    requires
        button < BUTTONS,
    ensures
        r@ == name_of(button),
{
    match button {
        0 => "Pen",
        1 => "Up",
        2 => "P1",
        3 => "Right",
        4 => "Pause",
        5 => "Fast",
        6 => "Enter",
        7 => "Down",
        8 => "P2",
        9 => "Left",
        _ => "Home",
    }
}

/// The pieces of the line that reports `t`, in the order they are written.
pub open spec fn report_of(t: ButtonTransition) -> Seq<Seq<char>> {
    if t.button == PEN {
        if t.pressed { seq!["Pen button is pressed\n"@] } else { seq!["Pen button not pressed\n"@] }
    } else {
        seq!["Button "@, name_of(t.button), " is "@, if t.pressed { "pressed\n"@ } else { "released\n"@ }]
    }
}

impl ButtonTransition {
    /// The pieces of the human-readable line that reports this transition.
    pub fn report(&self) -> (r: Vec<&'static str>)
        requires
            self.button < BUTTONS,
        ensures
            r@.map_values(|p: &'static str| p@) == report_of(*self),
    {
        let mut r: Vec<&'static str> = Vec::new();
        if self.button == PEN {
            if self.pressed {
                r.push("Pen button is pressed\n");
            } else {
                r.push("Pen button not pressed\n");
            }
        } else {
            r.push("Button ");
            r.push(button_name(self.button));
            r.push(" is ");
            if self.pressed {
                r.push("pressed\n");
            } else {
                r.push("released\n");
            }
        }
        assert(r@.map_values(|p: &'static str| p@) =~= report_of(*self));
        r
    }
}

/// The scanner's memory of every button's last level.
pub struct Keypad {
    states: [bool; 11],
}

impl View for Keypad {
    type V = Seq<bool>;

    /// The last level of each button, in button order.
    closed spec fn view(&self) -> Seq<bool> {
        self.states@
    }
}

impl Keypad {
    /// A scanner whose stored levels are those of the first sample.
    pub fn new(first: &KeypadSample) -> (r: Keypad)
        ensures
            r@ == sample_levels(*first),
    {
        let r = first.rows;
        let k = Keypad {
            states: [
                first.pen,
                r[0][0], r[0][1],
                r[1][0], r[1][1],
                r[2][0], r[2][1],
                r[3][0], r[3][1],
                r[4][0], r[4][1],
            ],
        };
        assert(k@ =~= sample_levels(*first));
        k
    }

    /// Compares the direct button's level with the stored one, stores it,
    /// and reports the change if there was one.
    pub fn check_pen(&mut self, level: bool) -> (r: Vec<ButtonTransition>)
        ensures
            final(self)@ == old(self)@.update(PEN as int, level),
            r@ == change_at(old(self)@, final(self)@, PEN as int),
    {
        let mut r: Vec<ButtonTransition> = Vec::new();
        if level != self.states[0] {
            self.states[0] = level;
            r.push(ButtonTransition { button: PEN, pressed: level });
        }
        assert(self@ =~= old(self)@.update(PEN as int, level));
        assert(r@ =~= change_at(old(self)@, self@, PEN as int));
        r
    }

    /// Compares the two column levels read under `row` with the stored ones,
    /// stores them, and reports the changes, first column first.
    pub fn check_row(&mut self, row: usize, col_1: bool, col_2: bool) -> (r: Vec<ButtonTransition>)
        requires
            row < ROWS,
        ensures
            final(self)@ == old(self)@.update(button_index(row as int, 0), col_1).update(
                button_index(row as int, 1),
                col_2,
            ),
            r@ == change_at(old(self)@, final(self)@, button_index(row as int, 0)) + change_at(
                old(self)@,
                final(self)@,
                button_index(row as int, 1),
            ),
    {
        let i: usize = 1 + 2 * row;
        let mut r: Vec<ButtonTransition> = Vec::new();
        if col_1 != self.states[i] {
            self.states[i] = col_1;
            r.push(ButtonTransition { button: i as u8, pressed: col_1 });
        }
        if col_2 != self.states[i + 1] {
            self.states[i + 1] = col_2;
            r.push(ButtonTransition { button: (i + 1) as u8, pressed: col_2 });
        }
        assert(self@ =~= old(self)@.update(i as int, col_1).update(i + 1, col_2));
        assert(r@ =~= change_at(old(self)@, self@, i as int) + change_at(old(self)@, self@, i + 1));
        r
    }

    /// A whole scan cycle on one sample: the direct button, then each row in
    /// order. Stores the sample and returns every change, in button order.
    pub fn scan(&mut self, sample: &KeypadSample) -> (r: Vec<ButtonTransition>)
        ensures
            final(self)@ == sample_levels(*sample),
            r@ == changes(old(self)@, sample_levels(*sample), BUTTONS as nat),
    {
        let ghost start = self@;
        let ghost target = sample_levels(*sample);
        let mut r = self.check_pen(sample.pen);
        assert(change_at(start, self@, 0) == change_at(start, target, 0));
        assert(changes(start, target, 1) =~= changes(start, target, 0) + change_at(start, target, 0));
        let mut row: usize = 0;
        while row < ROWS
            invariant
                0 <= row <= ROWS,
                start == old(self)@,
                target == sample_levels(*sample),
                self@.len() == BUTTONS,
                forall|i: int| 0 <= i < 1 + 2 * row ==> self@[i] == target[i],
                forall|i: int| 1 + 2 * row <= i < BUTTONS ==> self@[i] == start[i],
                r@ == changes(start, target, (1 + 2 * row) as nat),
            decreases ROWS - row,
        {
            let ghost mid = self@;
            let mut more = self.check_row(row, sample.rows[row][0], sample.rows[row][1]);
            proof {
                let i = 1 + 2 * row;
                assert(target[i] == sample.rows[row as int][0]);
                assert(target[i + 1] == sample.rows[row as int][1]);
                assert(change_at(mid, self@, i) == change_at(start, target, i));
                assert(change_at(mid, self@, i + 1) == change_at(start, target, i + 1));
                assert(changes(start, target, (i + 1) as nat) == changes(start, target, i as nat)
                    + change_at(start, target, i));
                assert(changes(start, target, (i + 2) as nat) == changes(start, target, (i + 1) as nat)
                    + change_at(start, target, i + 1));
                assert(changes(start, target, (i + 2) as nat) =~= changes(start, target, i as nat)
                    + change_at(start, target, i) + change_at(start, target, i + 1));
            }
            r.append(&mut more);
            row = row + 1;
        }
        assert(self@ =~= target);
        r
    }
}

} // verus!
