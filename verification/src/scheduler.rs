use vstd::prelude::*;
use crate::modes::{
    AlternateState, Ball, BounceState, ChaseState, FillEmptyState, FlashState, JuggleState,
    Mode, MultiChaseState, TheaterState,
};
use crate::pixel::{flip_leds, mirrored, Pixel};
use crate::rng;

verus! {

/// One live progress record per pattern. All of them exist for the whole
/// run; only the active mode's record advances, and switching away does not
/// reset the others.
pub struct ModeStates {
    pub chase: ChaseState,
    pub flash: FlashState,
    pub multi_chase: MultiChaseState,
    pub alternate: AlternateState,
    pub bounce: BounceState,
    pub fill_empty: FillEmptyState,
    pub theater: TheaterState,
    pub juggle: JuggleState,
}

impl ModeStates {
    pub open spec fn wf(self, n: nat) -> bool {
        &&& self.chase.wf(n)
        &&& self.multi_chase.wf(n)
        &&& self.bounce.wf(n)
        &&& self.fill_empty.wf(n)
        &&& self.theater.wf(n)
        &&& self.juggle.wf(n)
    }

    pub open spec fn spec_initial() -> ModeStates {
        ModeStates {
            chase: ChaseState { position: 0 },
            flash: FlashState { on: false },
            multi_chase: MultiChaseState { position: 0 },
            alternate: AlternateState { on: false },
            bounce: BounceState { position: 0, direction: 1 },
            fill_empty: FillEmptyState { position: 0, filling: true },
            theater: TheaterState { offset: 0 },
            juggle: JuggleState {
                b0: Ball { pos: 0, vel: 3 },
                b1: Ball { pos: 0, vel: 5 },
                b2: Ball { pos: 0, vel: 7 },
            },
        }
    }

    /// Every pattern at its starting point: positions at zero, toggles off,
    /// the strip filling, and the three balls at rest positions with their
    /// preset speeds of 0.3, 0.5 and 0.7 pixels per tick.
    pub fn initial() -> (s: ModeStates)
        ensures
            s == ModeStates::spec_initial(),
    {
        ModeStates {
            chase: ChaseState { position: 0 },
            flash: FlashState { on: false },
            multi_chase: MultiChaseState { position: 0 },
            alternate: AlternateState { on: false },
            bounce: BounceState { position: 0, direction: 1 },
            fill_empty: FillEmptyState { position: 0, filling: true },
            theater: TheaterState { offset: 0 },
            juggle: JuggleState {
                b0: Ball { pos: 0, vel: 3 },
                b1: Ball { pos: 0, vel: 5 },
                b2: Ball { pos: 0, vel: 7 },
            },
        }
    }
}

/// The frame the given mode renders from the given progress records.
pub open spec fn spec_mode_frame(m: Mode, st: ModeStates, n: nat, color: Pixel) -> Seq<Pixel> {
    match m {
        Mode::Chase => st.chase.spec_frame(n, color),
        Mode::Flash => st.flash.spec_frame(n, color),
        Mode::MultiChase => st.multi_chase.spec_frame(n, color),
        Mode::Alternate => st.alternate.spec_frame(n, color),
        Mode::Bounce => st.bounce.spec_frame(n, color),
        Mode::FillEmpty => st.fill_empty.spec_frame(n, color),
        Mode::Juggle => st.juggle.spec_next(n).spec_frame(n, color),
        Mode::Theater => st.theater.spec_frame(n, color),
    }
}

/// The progress records after the given mode has stepped once: only that
/// mode's record changes.
pub open spec fn spec_mode_next(m: Mode, st: ModeStates, n: nat) -> ModeStates {
    match m {
        Mode::Chase => ModeStates { chase: st.chase.spec_next(n), ..st },
        Mode::Flash => ModeStates { flash: st.flash.spec_next(), ..st },
        Mode::MultiChase => ModeStates { multi_chase: st.multi_chase.spec_next(n), ..st },
        Mode::Alternate => ModeStates { alternate: st.alternate.spec_next(), ..st },
        Mode::Bounce => ModeStates { bounce: st.bounce.spec_next(n), ..st },
        Mode::FillEmpty => ModeStates { fill_empty: st.fill_empty.spec_next(n), ..st },
        Mode::Juggle => ModeStates { juggle: st.juggle.spec_next(n), ..st },
        Mode::Theater => ModeStates { theater: st.theater.spec_next(n), ..st },
    }
}

/// The scheduler: the mode playing now, whether its frames are mirrored,
/// and every pattern's progress.
pub struct Scheduler {
    pub mode: Mode,
    pub mirrored: bool,
    pub states: ModeStates,
}

impl Scheduler {
    pub open spec fn wf(self, n: nat) -> bool {
        self.states.wf(n)
    }

    /// Starts with the mode and mirror flag given on the command line and
    /// every pattern at its starting point.
    pub fn new(initial_mode: Mode, initial_mirrored: bool) -> (s: Scheduler)
        ensures
            s.mode == initial_mode,
            s.mirrored == initial_mirrored,
            s.states == ModeStates::spec_initial(),
    {
        Scheduler { mode: initial_mode, mirrored: initial_mirrored, states: ModeStates::initial() }
    }

    /// Rotates to a new mode, chosen uniformly among the seven others - the
    /// new mode is never the one that was just playing - and redraws the
    /// mirror flag by a fair coin, independently of the mode drawn. The
    /// patterns' progress is kept.
    pub fn rotate(&mut self)
        ensures
            final(self).mode != old(self).mode,
            final(self).states == old(self).states,
    {
        self.mode = self.mode.random_different_from();
        self.mirrored = rng::random_flag();
    }

    /// Steps the mode playing now and returns its frame, unmirrored. Only
    /// that mode's progress record advances.
    fn step_pattern(&mut self, n: usize, color: Pixel) -> (frame: Vec<Pixel>)
        requires
            2 <= n,
            n <= usize::MAX - 2,
            10 * (n as int) <= 0x1000_0000_0000_0000,
            old(self).wf(n as nat),
        ensures
            final(self).mode == old(self).mode,
            final(self).mirrored == old(self).mirrored,
            final(self).states == spec_mode_next(old(self).mode, old(self).states, n as nat),
            final(self).wf(n as nat),
            frame@ == spec_mode_frame(old(self).mode, old(self).states, n as nat, color),
            frame@.len() == n as int,
    {
        match self.mode {
            Mode::Chase => self.states.chase.step(n, color),
            Mode::Flash => self.states.flash.step(n, color),
            Mode::MultiChase => self.states.multi_chase.step(n, color),
            Mode::Alternate => self.states.alternate.step(n, color),
            Mode::Bounce => self.states.bounce.step(n, color),
            Mode::FillEmpty => self.states.fill_empty.step(n, color),
            Mode::Juggle => self.states.juggle.step(n, color),
            Mode::Theater => self.states.theater.step(n, color),
        }
    }

    /// One render tick. When the caller reports the mode's time budget
    /// spent, the scheduler first rotates to a different mode with a fresh
    /// mirror flag. It then steps whichever mode is current and returns that
    /// mode's frame, reversed when the mirror flag is set. The frame always
    /// has one pixel per configured LED.
    pub fn tick(&mut self, rotate_now: bool, n: usize, color: Pixel) -> (frame: Vec<Pixel>)
        requires
            2 <= n,
            n <= usize::MAX - 2,
            10 * (n as int) <= 0x1000_0000_0000_0000,
            old(self).wf(n as nat),
        ensures
            rotate_now ==> final(self).mode != old(self).mode,
            !rotate_now ==> final(self).mode == old(self).mode
                && final(self).mirrored == old(self).mirrored,
            final(self).states == spec_mode_next(final(self).mode, old(self).states, n as nat),
            final(self).wf(n as nat),
            frame@ == (if final(self).mirrored {
                mirrored(spec_mode_frame(final(self).mode, old(self).states, n as nat, color))
            } else {
                spec_mode_frame(final(self).mode, old(self).states, n as nat, color)
            }),
            frame@.len() == n as int,
    {
        if rotate_now {
            self.rotate();
        }
        let mut frame = self.step_pattern(n, color);
        if self.mirrored {
            flip_leds(&mut frame);
        }
        frame
    }
}

} // verus!
