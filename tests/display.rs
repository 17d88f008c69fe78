use front_panel::{
    decompose, encode, Action, Display, DisplayController, DisplayValues, EncodedDisplayValues,
    PinPattern, BLANK,
};

fn lit(d: u8) -> PinPattern {
    encode(d)
}

/// The (enable line, digit) pairs of a plan, checking each step's shape.
fn strobes(acts: &[Action]) -> Vec<(u8, u8)> {
    assert_eq!(acts.len() % 4, 0);
    let mut out = Vec::new();
    for chunk in acts.chunks(4) {
        let line = match chunk[1] {
            Action::Enable(l) => l,
            other => panic!("expected an enable, got {:?}", other),
        };
        assert_eq!(chunk[2], Action::Dwell);
        assert_eq!(chunk[3], Action::Disable(line));
        let digit = (0u8..10).find(|d| Action::Encode(lit(*d)) == chunk[0]).unwrap();
        out.push((line, digit));
    }
    out
}

#[test]
fn decompose_reconstructs_below_saturation() {
    for v in 0u16..=9998 {
        let d = decompose(v);
        let back = 1000 * d[0] as u32 + 100 * d[1] as u32 + 10 * d[2] as u32 + d[3] as u32;
        assert_eq!(back, v as u32);
        assert!(d.iter().all(|x| *x <= 9));
    }
}

#[test]
fn decompose_edges_saturate() {
    assert_eq!(decompose(0), [0, 0, 0, 0]);
    assert_eq!(decompose(9999), [9, 9, 9, 9]);
    assert_eq!(decompose(20000), [9, 9, 9, 9]);
    assert_eq!(decompose(u16::MAX), [9, 9, 9, 9]);
    assert_eq!(decompose(1234), [1, 2, 3, 4]);
    assert_eq!(decompose(9998), [9, 9, 9, 8]);
}

#[test]
fn decompose_is_repeatable() {
    assert_eq!(decompose(4321), decompose(4321));
}

#[test]
fn encode_table() {
    let p = |a, b, c, d| PinPattern { a, b, c, d };
    assert_eq!(encode(1), p(true, false, false, false));
    assert_eq!(encode(2), p(false, true, false, false));
    assert_eq!(encode(3), p(true, true, false, false));
    assert_eq!(encode(4), p(false, false, true, false));
    assert_eq!(encode(5), p(true, false, true, false));
    assert_eq!(encode(6), p(false, true, true, false));
    assert_eq!(encode(7), p(true, true, true, false));
    assert_eq!(encode(8), p(false, false, false, true));
    assert_eq!(encode(9), p(true, false, false, true));
}

#[test]
fn encode_zero_and_blank_agree() {
    let off = PinPattern { a: false, b: false, c: false, d: false };
    assert_eq!(encode(0), off);
    assert_eq!(encode(BLANK), off);
    assert_eq!(encode(0), encode(BLANK));
}

#[test]
fn encode_into_fills_both_banks() {
    let mut out = EncodedDisplayValues::new();
    DisplayValues { left: 42, right: 12000 }.encode_into(&mut out);
    assert_eq!(out.left, [0, 0, 4, 2]);
    assert_eq!(out.right, [9, 9, 9, 9]);
}

#[test]
fn channel_keeps_only_the_latest() {
    let mut ctl = DisplayController::new();
    ctl.set_values(1, 2);
    ctl.set_values(3, 4);
    let v = ctl.try_take().expect("a pending pair");
    assert_eq!((v.left, v.right), (3, 4));
    assert!(ctl.try_take().is_none());
}

#[test]
fn channel_starts_empty() {
    let (_, mut ctl) = Display::new();
    assert!(ctl.try_take().is_none());
}

#[test]
fn blanking_of_five() {
    let (mut disp, _) = Display::new();
    let acts = disp.refresh(Some(DisplayValues { left: 5, right: 5 }));
    assert_eq!(strobes(&acts), vec![(3, 0), (4, 5), (8, 0), (9, 5)]);
}

#[test]
fn blanking_of_fifty_and_five_hundred() {
    let (mut disp, _) = Display::new();
    let acts = disp.refresh(Some(DisplayValues { left: 50, right: 500 }));
    assert_eq!(strobes(&acts), vec![(3, 5), (4, 0), (7, 5), (8, 0), (9, 0)]);
}

#[test]
fn full_digits_light_all_eight() {
    let (mut disp, _) = Display::new();
    let acts = disp.refresh(Some(DisplayValues { left: 1005, right: 9999 }));
    assert_eq!(
        strobes(&acts),
        vec![(1, 1), (2, 0), (3, 0), (4, 5), (6, 9), (7, 9), (8, 9), (9, 9)]
    );
}

#[test]
fn idle_display_shows_last_two_zeros() {
    let (mut disp, _) = Display::new();
    let acts = disp.refresh(None);
    assert_eq!(strobes(&acts), vec![(3, 0), (4, 0), (8, 0), (9, 0)]);
}

#[test]
fn refresh_without_input_keeps_digits() {
    let (mut disp, _) = Display::new();
    disp.refresh(Some(DisplayValues { left: 321, right: 7 }));
    let acts = disp.refresh(None);
    assert_eq!(disp.left_digits(), [0, 3, 2, 1]);
    assert_eq!(disp.right_digits(), [0, 0, 0, 7]);
    assert_eq!(strobes(&acts), vec![(2, 3), (3, 2), (4, 1), (8, 0), (9, 7)]);
}

#[test]
fn enable_lines_never_overlap() {
    let (mut disp, _) = Display::new();
    for (l, r) in [(0u16, 0u16), (5, 50), (500, 5000), (9999, 1), (1010, 101)] {
        let acts = disp.refresh(Some(DisplayValues { left: l, right: r }));
        let mut high: Option<u8> = None;
        for a in acts {
            match a {
                Action::Enable(line) => {
                    assert!(high.is_none(), "two lines high at once");
                    assert!(line != 0 && line != 5);
                    high = Some(line);
                }
                Action::Disable(line) => {
                    assert_eq!(high, Some(line));
                    high = None;
                }
                _ => {}
            }
        }
        assert!(high.is_none());
    }
}
