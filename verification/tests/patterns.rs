use pm_licht::modes::{
    AlternateState, Ball, BounceState, ChaseState, FillEmptyState, FlashState, JuggleState,
    Mode, MultiChaseState, TheaterState,
};
use pm_licht::pixel::{flip_leds, warm_white, Pixel};

fn color() -> Pixel {
    warm_white(false)
}

fn off() -> Pixel {
    Pixel { c0: 0, c1: 0, c2: 0, c3: 0 }
}

fn lit_indices(frame: &[Pixel]) -> Vec<usize> {
    frame.iter().enumerate().filter(|(_, p)| **p != off()).map(|(i, _)| i).collect()
}

#[test]
fn warm_white_presets() {
    let big = warm_white(true);
    assert_eq!((big.c0, big.c1, big.c2, big.c3), (25, 255, 160, 0));
    let small = warm_white(false);
    assert_eq!((small.c0, small.c1, small.c2, small.c3), (30, 170, 255, 0));
}

#[test]
fn chase_lights_one_pixel_and_wraps() {
    let n = 6;
    let mut st = ChaseState { position: 2 };
    for k in 0..n {
        let frame = st.step(n, color());
        assert_eq!(frame.len(), n);
        assert_eq!(lit_indices(&frame), vec![(2 + k) % n]);
    }
    assert_eq!(st.position, 2);
}

#[test]
fn flash_alternates_all_on_all_off() {
    let n = 4;
    let mut st = FlashState { on: false };
    let first = st.step(n, color());
    assert!(first.iter().all(|p| *p == off()));
    let second = st.step(n, color());
    assert!(second.iter().all(|p| *p == color()));
    let third = st.step(n, color());
    assert!(third.iter().all(|p| *p == off()));
}

#[test]
fn multi_chase_lights_three_and_wraps() {
    let n = 5;
    let mut st = MultiChaseState { position: 3 };
    let frame = st.step(n, color());
    assert_eq!(lit_indices(&frame), vec![0, 3, 4]);
    assert_eq!(st.position, 4);
    let frame = st.step(n, color());
    assert_eq!(lit_indices(&frame), vec![0, 1, 4]);
    assert_eq!(st.position, 0);
}

#[test]
fn alternate_swaps_even_and_odd() {
    let n = 6;
    let mut st = AlternateState { on: true };
    let evens = st.step(n, color());
    assert_eq!(lit_indices(&evens), vec![0, 2, 4]);
    let odds = st.step(n, color());
    assert_eq!(lit_indices(&odds), vec![1, 3, 5]);
}

#[test]
fn bounce_walks_out_from_center_and_back() {
    let n = 8;
    let mut st = BounceState { position: 0, direction: 1 };
    let expected = [
        (vec![3, 4], 1, 1),
        (vec![2, 5], 2, 1),
        (vec![1, 6], 3, 1),
        (vec![0, 7], 3, -1),
        (vec![0, 7], 2, -1),
        (vec![1, 6], 1, -1),
        (vec![2, 5], 0, -1),
        (vec![3, 4], 0, 1),
        (vec![3, 4], 1, 1),
    ];
    for (lit, pos, dir) in expected.iter() {
        let frame = st.step(n, color());
        assert_eq!(&lit_indices(&frame), lit);
        assert_eq!(st.position, *pos);
        assert_eq!(st.direction, *dir);
    }
}

#[test]
fn fill_empty_flips_phase_after_full_sweep() {
    let n = 5;
    let mut st = FillEmptyState { position: 0, filling: true };
    for k in 0..n {
        let frame = st.step(n, color());
        let lit: Vec<usize> = (0..=k).collect();
        assert_eq!(lit_indices(&frame), lit);
    }
    assert_eq!(st.position, 0);
    assert!(!st.filling);
    let frame = st.step(n, color());
    assert_eq!(lit_indices(&frame), vec![1, 2, 3, 4]);
}

#[test]
fn theater_cycles_pairs_and_skips_odd_tail() {
    let n = 7;
    let mut st = TheaterState { offset: 0 };
    let mut seen_last = false;
    for round in 0..6 {
        let frame = st.step(n, color());
        let pair = 2 * (round % 3);
        assert_eq!(lit_indices(&frame), vec![pair, pair + 1]);
        seen_last |= frame[6] != off();
    }
    assert!(!seen_last);
    assert_eq!(st.offset, 0);
}

#[test]
fn juggle_balls_stay_on_the_strip() {
    let n = 10;
    let limit = 10 * (n as i64 - 1);
    let mut st = JuggleState {
        b0: Ball { pos: 0, vel: 3 },
        b1: Ball { pos: 0, vel: 5 },
        b2: Ball { pos: 0, vel: 7 },
    };
    for _ in 0..200 {
        let frame = st.step(n, color());
        assert_eq!(frame.len(), n);
        for b in [st.b0, st.b1, st.b2] {
            assert!(0 <= b.pos && b.pos <= limit);
        }
        assert!(!lit_indices(&frame).is_empty());
    }
}

#[test]
fn juggle_velocity_flips_exactly_at_boundaries() {
    let n = 10;
    let mut st = JuggleState {
        b0: Ball { pos: 89, vel: 3 },
        b1: Ball { pos: 1, vel: -3 },
        b2: Ball { pos: 50, vel: 5 },
    };
    st.step(n, color());
    assert_eq!((st.b0.pos, st.b0.vel), (90, -3));
    assert_eq!((st.b1.pos, st.b1.vel), (0, 3));
    assert_eq!((st.b2.pos, st.b2.vel), (55, 5));
}

#[test]
fn mirror_reverses_and_double_mirror_restores() {
    let mut frame: Vec<Pixel> = (0..5)
        .map(|i| Pixel { c0: i as u8, c1: 0, c2: 0, c3: 0 })
        .collect();
    let original = frame.clone();
    flip_leds(&mut frame);
    assert_eq!(frame[0].c0, 4);
    assert_eq!(frame[4].c0, 0);
    flip_leds(&mut frame);
    assert_eq!(frame, original);
}

#[test]
fn mode_names() {
    let pairs = [
        (Mode::Chase, "Chase"),
        (Mode::Flash, "Flash"),
        (Mode::MultiChase, "MultiChase"),
        (Mode::Alternate, "Alternate"),
        (Mode::Bounce, "Bounce"),
        (Mode::FillEmpty, "FillEmpty"),
        (Mode::Juggle, "Juggle"),
        (Mode::Theater, "Theater"),
    ];
    for (mode, name) in pairs.iter() {
        assert_eq!(mode.name(), *name);
    }
}
