use pm_licht::modes::Mode;
use pm_licht::pixel::warm_white;
use pm_licht::scheduler::Scheduler;

const ALL_MODES: [Mode; 8] = [
    Mode::Chase,
    Mode::Flash,
    Mode::MultiChase,
    Mode::Alternate,
    Mode::Bounce,
    Mode::FillEmpty,
    Mode::Juggle,
    Mode::Theater,
];

#[test]
fn every_mode_fills_the_whole_strip() {
    let n = 8;
    for mode in ALL_MODES.iter() {
        let mut s = Scheduler::new(*mode, false);
        for _ in 0..10 {
            let frame = s.tick(false, n, warm_white(true));
            assert_eq!(frame.len(), n);
            assert_eq!(s.mode, *mode);
        }
    }
}

#[test]
fn rotation_never_repeats_the_previous_mode() {
    let mut s = Scheduler::new(Mode::Flash, false);
    for _ in 0..500 {
        let before = s.mode;
        s.rotate();
        assert_ne!(s.mode, before);
    }
}

#[test]
fn random_pick_avoids_the_current_mode() {
    for mode in ALL_MODES.iter() {
        for _ in 0..50 {
            assert_ne!(mode.random_different_from(), *mode);
        }
    }
}

#[test]
fn forced_rotation_keeps_pattern_progress() {
    let n = 8;
    let mut s = Scheduler::new(Mode::Chase, false);
    s.tick(false, n, warm_white(true));
    s.tick(false, n, warm_white(true));
    let chase_before = s.states.chase.position;
    let fill_before = s.states.fill_empty.position;
    s.rotate();
    assert_eq!(s.states.chase.position, chase_before);
    assert_eq!(s.states.fill_empty.position, fill_before);
}

#[test]
fn mirrored_scheduler_reverses_the_frame() {
    let n = 6;
    let color = warm_white(false);
    let mut plain = Scheduler::new(Mode::Chase, false);
    let mut flipped = Scheduler::new(Mode::Chase, true);
    for _ in 0..n {
        let a = plain.tick(false, n, color);
        let b = flipped.tick(false, n, color);
        let reversed: Vec<_> = b.iter().rev().cloned().collect();
        assert_eq!(a, reversed);
    }
}
