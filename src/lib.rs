//! Logic of a multiplexed two-bank numeric display and of a matrix keypad
//! scanner: digit decomposition, the encoder's pin patterns, the single-slot
//! value channel, the refresh plan of each display cycle and the keypad's
//! change detection.

mod digits;
mod encoder;
mod channel;
mod display;
mod keypad;

pub use digits::{decompose, digits_of, lemma_decompose_reconstructs, DisplayValues, EncodedDisplayValues};
pub use encoder::{encode, pattern_of, PinPattern, BLANK};
pub use channel::DisplayController;
pub use display::{
    actions_of, bank_strobes, enable_state, frame_strobes, lemma_refresh_one_line_at_a_time,
    lit_positions, step, strobe_actions, Action, Display, Strobe, ENABLE_LINES, LEFT_FIRST_LINE,
    RIGHT_FIRST_LINE,
};
pub use keypad::{
    button_index, change_at, changes, lemma_rescan_is_quiet, lemma_single_press, sample_levels,
    button_name, name_of, report_of, ButtonTransition, Keypad, KeypadSample, BUTTONS, PEN,
    ROWS,
};
