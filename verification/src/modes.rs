use vstd::prelude::*;
use crate::pixel::Pixel;
use crate::rng;

verus! {

/// The closed set of patterns the engine can render.
#[derive(Clone, Copy, PartialEq, Eq, Structural, Debug)]
pub enum Mode {
    Chase,
    Flash,
    MultiChase,
    Alternate,
    Bounce,
    FillEmpty,
    Juggle,
    Theater,
}

pub open spec fn spec_mode_index(m: Mode) -> int {
    match m {
        Mode::Chase => 0,
        Mode::Flash => 1,
        Mode::MultiChase => 2,
        Mode::Alternate => 3,
        Mode::Bounce => 4,
        Mode::FillEmpty => 5,
        Mode::Juggle => 6,
        Mode::Theater => 7,
    }
}

pub open spec fn spec_mode_from_index(i: int) -> Mode {
    if i == 0 { Mode::Chase }
    else if i == 1 { Mode::Flash }
    else if i == 2 { Mode::MultiChase }
    else if i == 3 { Mode::Alternate }
    else if i == 4 { Mode::Bounce }
    else if i == 5 { Mode::FillEmpty }
    else if i == 6 { Mode::Juggle }
    else { Mode::Theater }
}

/// Every mode round-trips through its index, so distinct indices give
/// distinct modes.
proof fn lemma_mode_index_roundtrip(m: Mode)
    ensures
        spec_mode_from_index(spec_mode_index(m)) == m,
        0 <= spec_mode_index(m) < 8,
{
}

fn mode_index(m: Mode) -> (i: usize)
    ensures
        i as int == spec_mode_index(m),
{
    match m {
        Mode::Chase => 0,
        Mode::Flash => 1,
        Mode::MultiChase => 2,
        Mode::Alternate => 3,
        Mode::Bounce => 4,
        Mode::FillEmpty => 5,
        Mode::Juggle => 6,
        Mode::Theater => 7,
    }
}

fn mode_from_index(i: usize) -> (m: Mode)
    requires
        i < 8,
    ensures
        m == spec_mode_from_index(i as int),
{
    if i == 0 { Mode::Chase }
    else if i == 1 { Mode::Flash }
    else if i == 2 { Mode::MultiChase }
    else if i == 3 { Mode::Alternate }
    else if i == 4 { Mode::Bounce }
    else if i == 5 { Mode::FillEmpty }
    else if i == 6 { Mode::Juggle }
    else { Mode::Theater }
}

impl Mode {
    pub open spec fn spec_name(self) -> Seq<char> {
        match self {
            Mode::Chase => "Chase"@,
            Mode::Flash => "Flash"@,
            Mode::MultiChase => "MultiChase"@,
            Mode::Alternate => "Alternate"@,
            Mode::Bounce => "Bounce"@,
            Mode::FillEmpty => "FillEmpty"@,
            Mode::Juggle => "Juggle"@,
            Mode::Theater => "Theater"@,
        }
    }

    /// The mode's human-readable name.
    pub fn name(&self) -> (r: &'static str)
        ensures
            r@ == self.spec_name(),
    {
        match self {
            Mode::Chase => "Chase",
            Mode::Flash => "Flash",
            Mode::MultiChase => "MultiChase",
            Mode::Alternate => "Alternate",
            Mode::Bounce => "Bounce",
            Mode::FillEmpty => "FillEmpty",
            Mode::Juggle => "Juggle",
            Mode::Theater => "Theater",
        }
    }

    /// Picks one of the seven other modes, uniformly at random: the result
    /// is never the mode it is called on.
    pub fn random_different_from(&self) -> (m: Mode)
        ensures
            m != *self,
    {
        let own = mode_index(*self);
        let draw = rng::random_below(7);
        let pick = if draw >= own { draw + 1 } else { draw };
        proof {
            lemma_mode_index_roundtrip(*self);
        }
        let m = mode_from_index(pick);
        proof {
            lemma_mode_index_roundtrip(m);
        }
        m
    }
}

/// State of the chase pattern: the one lit pixel's index.
pub struct ChaseState {
    pub position: usize,
}

impl ChaseState {
    pub open spec fn wf(self, n: nat) -> bool {
        self.position < n
    }

    pub open spec fn spec_frame(self, n: nat, color: Pixel) -> Seq<Pixel> {
        Seq::new(n, |i: int| if i == self.position { color } else { Pixel::spec_off() })
    }

    pub open spec fn spec_next(self, n: nat) -> ChaseState {
        ChaseState { position: ((self.position + 1) % (n as int)) as usize }
    }

    /// Lights exactly the pixel at `position`, then advances the position by
    /// one, wrapping at the end of the strip.
    pub fn step(&mut self, n: usize, color: Pixel) -> (frame: Vec<Pixel>)
        requires
            1 <= n,
            old(self).wf(n as nat),
        ensures
            frame@ == old(self).spec_frame(n as nat, color),
            *final(self) == old(self).spec_next(n as nat),
            final(self).wf(n as nat),
    {
        let mut frame: Vec<Pixel> = Vec::new();
        let mut i: usize = 0;
        while i < n
            invariant
                i <= n,
                *self == *old(self),
                frame@.len() == i as int,
                forall|j: int| 0 <= j < i ==> frame@[j]
                    == (if j == old(self).position { color } else { Pixel::spec_off() }),
            decreases n - i,
        {
            if i == self.position {
                frame.push(color);
            } else {
                frame.push(Pixel::off());
            }
            i = i + 1;
        }
        assert(frame@ =~= old(self).spec_frame(n as nat, color));
        self.position = (self.position + 1) % n;
        frame
    }
}

/// Iterated chase transitions: the state after `k` steps.
pub open spec fn chase_iter(s: ChaseState, n: nat, k: nat) -> ChaseState
    decreases k,
{
    if k == 0 { s } else { chase_iter(s, n, (k - 1) as nat).spec_next(n) }
}

proof fn lemma_chase_iter_position(s: ChaseState, n: nat, k: nat)
    requires
        1 <= n <= usize::MAX,
        s.wf(n),
    ensures
        chase_iter(s, n, k).position == (s.position + k) % (n as int),
    decreases k,
{
    if k == 0 {
        vstd::arithmetic::div_mod::lemma_small_mod(s.position as nat, n);
    } else {
        let prev = chase_iter(s, n, (k - 1) as nat);
        lemma_chase_iter_position(s, n, (k - 1) as nat);
        vstd::arithmetic::div_mod::lemma_mod_bound(prev.position + 1, n as int);
        vstd::arithmetic::div_mod::lemma_add_mod_noop_right(1, s.position + k - 1, n as int);
    }
}

/// A chase frame lights exactly one pixel: index `i` carries the colour
/// precisely when it is the chase position.
pub proof fn lemma_chase_single_pixel(s: ChaseState, n: nat, color: Pixel, i: int)
    requires
        s.wf(n),
        0 <= i < n,
        color != Pixel::spec_off(),
    ensures
        s.spec_frame(n, color)[i] == color <==> i == s.position,
{
}

/// Stepping the chase pattern once per pixel brings `position` back to its
/// starting value.
pub proof fn lemma_chase_period(s: ChaseState, n: nat)
    requires
        1 <= n <= usize::MAX,
        s.wf(n),
    ensures
        chase_iter(s, n, n) == s,
{
    lemma_chase_iter_position(s, n, n);
    vstd::arithmetic::div_mod::lemma_mod_add_multiples_vanish(s.position as int, n as int);
    vstd::arithmetic::div_mod::lemma_small_mod(s.position as nat, n);
}

/// The frame that repeats one pixel value everywhere.
pub open spec fn uniform_frame(n: nat, p: Pixel) -> Seq<Pixel> {
    Seq::new(n, |i: int| p)
}

/// State of the flash pattern: whether the next frame is lit.
pub struct FlashState {
    pub on: bool,
}

impl FlashState {
    pub open spec fn spec_frame(self, n: nat, color: Pixel) -> Seq<Pixel> {
        uniform_frame(n, if self.on { color } else { Pixel::spec_off() })
    }

    pub open spec fn spec_next(self) -> FlashState {
        FlashState { on: !self.on }
    }

    /// Lights the whole strip when the toggle is set, turns it all off when
    /// it is not, and flips the toggle for the next call.
    pub fn step(&mut self, n: usize, color: Pixel) -> (frame: Vec<Pixel>)
        ensures
            frame@ == old(self).spec_frame(n as nat, color),
            *final(self) == old(self).spec_next(),
    {
        let fill = if self.on { color } else { Pixel::off() };
        let mut frame: Vec<Pixel> = Vec::new();
        let mut i: usize = 0;
        while i < n
            invariant
                i <= n,
                *self == *old(self),
                fill == (if old(self).on { color } else { Pixel::spec_off() }),
                frame@.len() == i as int,
                forall|j: int| 0 <= j < i ==> frame@[j] == fill,
            decreases n - i,
        {
            frame.push(fill);
            i = i + 1;
        }
        assert(frame@ =~= old(self).spec_frame(n as nat, color));
        self.on = !self.on;
        frame
    }
}

/// Consecutive flash steps alternate between the all-lit frame and the
/// all-off frame, starting from whichever the current toggle selects.
pub proof fn lemma_flash_alternates(s: FlashState, n: nat, color: Pixel)
    ensures
        s.spec_frame(n, color)
            == uniform_frame(n, if s.on { color } else { Pixel::spec_off() }),
        s.spec_next().spec_frame(n, color)
            == uniform_frame(n, if s.on { Pixel::spec_off() } else { color }),
{
}

/// State of the multi-chase pattern: where its block of three lit pixels
/// starts.
pub struct MultiChaseState {
    pub position: usize,
}

impl MultiChaseState {
    pub open spec fn wf(self, n: nat) -> bool {
        self.position < n
    }

    pub open spec fn spec_frame(self, n: nat, color: Pixel) -> Seq<Pixel> {
        Seq::new(
            n,
            |i: int| if i == self.position
                || i == (self.position + 1) % (n as int)
                || i == (self.position + 2) % (n as int)
            { color } else { Pixel::spec_off() },
        )
    }

    pub open spec fn spec_next(self, n: nat) -> MultiChaseState {
        MultiChaseState { position: ((self.position + 1) % (n as int)) as usize }
    }

    /// Lights the three consecutive pixels starting at `position`, wrapping
    /// past the end of the strip, then advances the position by one.
    pub fn step(&mut self, n: usize, color: Pixel) -> (frame: Vec<Pixel>)
        requires
            1 <= n,
            n <= usize::MAX - 2,
            old(self).wf(n as nat),
        ensures
            frame@ == old(self).spec_frame(n as nat, color),
            *final(self) == old(self).spec_next(n as nat),
            final(self).wf(n as nat),
    {
        let p0 = self.position;
        let p1 = (self.position + 1) % n;
        let p2 = (self.position + 2) % n;
        let mut frame: Vec<Pixel> = Vec::new();
        let mut i: usize = 0;
        while i < n
            invariant
                i <= n,
                *self == *old(self),
                p0 == old(self).position,
                p1 as int == (old(self).position + 1) % (n as int),
                p2 as int == (old(self).position + 2) % (n as int),
                frame@.len() == i as int,
                forall|j: int| 0 <= j < i ==> frame@[j]
                    == (if j == p0 || j == p1 as int || j == p2 as int { color } else { Pixel::spec_off() }),
            decreases n - i,
        {
            if i == p0 || i == p1 || i == p2 {
                frame.push(color);
            } else {
                frame.push(Pixel::off());
            }
            i = i + 1;
        }
        assert(frame@ =~= old(self).spec_frame(n as nat, color));
        self.position = (self.position + 1) % n;
        frame
    }
}

/// State of the alternate pattern: whether the even pixels are the lit ones.
pub struct AlternateState {
    pub on: bool,
}

impl AlternateState {
    pub open spec fn spec_frame(self, n: nat, color: Pixel) -> Seq<Pixel> {
        Seq::new(
            n,
            |i: int| if (self.on && i % 2 == 0) || (!self.on && i % 2 == 1)
            { color } else { Pixel::spec_off() },
        )
    }

    pub open spec fn spec_next(self) -> AlternateState {
        AlternateState { on: !self.on }
    }

    /// Lights every even pixel when the toggle is set, every odd pixel when
    /// it is not, and flips the toggle for the next call.
    pub fn step(&mut self, n: usize, color: Pixel) -> (frame: Vec<Pixel>)
        ensures
            frame@ == old(self).spec_frame(n as nat, color),
            *final(self) == old(self).spec_next(),
    {
        let mut frame: Vec<Pixel> = Vec::new();
        let mut i: usize = 0;
        while i < n
            invariant
                i <= n,
                *self == *old(self),
                frame@.len() == i as int,
                forall|j: int| 0 <= j < i ==> frame@[j]
                    == (if (old(self).on && j % 2 == 0) || (!old(self).on && j % 2 == 1)
                        { color } else { Pixel::spec_off() }),
            decreases n - i,
        {
            let lit = if self.on { i % 2 == 0 } else { i % 2 == 1 };
            if lit {
                frame.push(color);
            } else {
                frame.push(Pixel::off());
            }
            i = i + 1;
        }
        assert(frame@ =~= old(self).spec_frame(n as nat, color));
        self.on = !self.on;
        frame
    }
}

/// State of the bounce pattern: how far the lit pair has wandered from the
/// centre, and which way it is heading.
pub struct BounceState {
    pub position: i64,
    pub direction: i64,
}

/// The largest centre distance the bounce pattern may rest at.
pub open spec fn bounce_max(n: nat) -> int {
    if n / 2 >= 1 { n / 2 - 1 } else { 0 }
}

impl BounceState {
    pub open spec fn wf(self, n: nat) -> bool {
        &&& (self.direction == 1 || self.direction == -1)
        &&& 0 <= self.position <= bounce_max(n)
    }

    pub open spec fn spec_frame(self, n: nat, color: Pixel) -> Seq<Pixel> {
        let left = (n - 1) / 2 - self.position;
        let right = n / 2 + self.position;
        Seq::new(
            n,
            |i: int| if (i == left || i == right) && left >= 0 && right < n
            { color } else { Pixel::spec_off() },
        )
    }

    pub open spec fn spec_next(self, n: nat) -> BounceState {
        let moved = self.position + self.direction;
        if moved >= n / 2 || moved < 0 {
            BounceState {
                position: (moved - self.direction) as i64,
                direction: (-self.direction) as i64,
            }
        } else {
            BounceState { position: moved as i64, direction: self.direction }
        }
    }

    /// Lights the pair of pixels `position` steps out from the centre, then
    /// moves the pair one step along `direction`, reversing the direction
    /// whenever the move would leave the half-strip range.
    pub fn step(&mut self, n: usize, color: Pixel) -> (frame: Vec<Pixel>)
        requires
            1 <= n,
            n <= 0x7fff_ffff_ffff_ffff,
            old(self).wf(n as nat),
        ensures
            frame@ == old(self).spec_frame(n as nat, color),
            *final(self) == old(self).spec_next(n as nat),
            final(self).wf(n as nat),
            final(self).direction == -old(self).direction
                <==> (old(self).position + old(self).direction >= n / 2
                    || old(self).position + old(self).direction < 0),
    {
        let center_left = ((n - 1) / 2) as i64;
        let center_right = (n / 2) as i64;
        let left = center_left - self.position;
        let right = center_right + self.position;
        let n_i = n as i64;
        let mut frame: Vec<Pixel> = Vec::new();
        let mut i: usize = 0;
        while i < n
            invariant
                i <= n,
                *self == *old(self),
                n <= 0x7fff_ffff_ffff_ffff,
                old(self).wf(n as nat),
                n_i == n as i64,
                left as int == (n as int - 1) / 2 - old(self).position,
                right as int == n as int / 2 + old(self).position,
                frame@.len() == i as int,
                forall|j: int| 0 <= j < i ==> frame@[j]
                    == (if (j == left as int || j == right as int) && left >= 0 && right < n as int
                        { color } else { Pixel::spec_off() }),
            decreases n - i,
        {
            let i_i = i as i64;
            let lit = (i_i == left || i_i == right) && left >= 0 && right < n_i;
            if lit {
                frame.push(color);
            } else {
                frame.push(Pixel::off());
            }
            i = i + 1;
        }
        assert(frame@ =~= old(self).spec_frame(n as nat, color));
        let moved = self.position + self.direction;
        if moved >= (n / 2) as i64 || moved < 0 {
            self.direction = -self.direction;
            self.position = moved + self.direction;
        } else {
            self.position = moved;
        }
        frame
    }
}

/// State of the fill-and-empty pattern: the boundary pixel and whether the
/// strip is currently filling or emptying.
pub struct FillEmptyState {
    pub position: usize,
    pub filling: bool,
}

impl FillEmptyState {
    pub open spec fn wf(self, n: nat) -> bool {
        self.position < n
    }

    pub open spec fn spec_frame(self, n: nat, color: Pixel) -> Seq<Pixel> {
        Seq::new(
            n,
            |i: int| if (i <= self.position) == self.filling { color } else { Pixel::spec_off() },
        )
    }

    pub open spec fn spec_next(self, n: nat) -> FillEmptyState {
        if self.position + 1 >= n {
            FillEmptyState { position: 0, filling: !self.filling }
        } else {
            FillEmptyState { position: (self.position + 1) as usize, filling: self.filling }
        }
    }

    /// While filling, lights pixels `0..=position` and leaves the rest off;
    /// while emptying, the other way round. Advances the boundary by one and
    /// flips the phase once the boundary has crossed the whole strip.
    pub fn step(&mut self, n: usize, color: Pixel) -> (frame: Vec<Pixel>)
        requires
            1 <= n,
            old(self).wf(n as nat),
        ensures
            frame@ == old(self).spec_frame(n as nat, color),
            *final(self) == old(self).spec_next(n as nat),
            final(self).wf(n as nat),
            final(self).filling != old(self).filling <==> old(self).position + 1 >= n,
    {
        let mut frame: Vec<Pixel> = Vec::new();
        let mut i: usize = 0;
        while i < n
            invariant
                i <= n,
                *self == *old(self),
                frame@.len() == i as int,
                forall|j: int| 0 <= j < i ==> frame@[j]
                    == (if (j <= old(self).position) == old(self).filling
                        { color } else { Pixel::spec_off() }),
            decreases n - i,
        {
            let lit = if self.filling { i <= self.position } else { i > self.position };
            if lit {
                frame.push(color);
            } else {
                frame.push(Pixel::off());
            }
            i = i + 1;
        }
        assert(frame@ =~= old(self).spec_frame(n as nat, color));
        if self.position >= n - 1 {
            self.filling = !self.filling;
            self.position = 0;
        } else {
            self.position = self.position + 1;
        }
        frame
    }
}

/// State of the theater pattern: which pair of pixels is lit.
pub struct TheaterState {
    pub offset: usize,
}

impl TheaterState {
    pub open spec fn wf(self, n: nat) -> bool {
        self.offset < n / 2
    }

    pub open spec fn spec_frame(self, n: nat, color: Pixel) -> Seq<Pixel> {
        Seq::new(
            n,
            |i: int| if i == 2 * self.offset || i == 2 * self.offset + 1
            { color } else { Pixel::spec_off() },
        )
    }

    pub open spec fn spec_next(self, n: nat) -> TheaterState {
        TheaterState { offset: ((self.offset + 1) % (n / 2) as int) as usize }
    }

    /// Lights exactly the pair `(2 * offset, 2 * offset + 1)`, then advances
    /// the pair, wrapping after the last full pair. On a strip with an odd
    /// pixel count the final pixel is never part of a pair, so it stays off;
    /// that is how the pattern is meant to look, not an oversight.
    pub fn step(&mut self, n: usize, color: Pixel) -> (frame: Vec<Pixel>)
        requires
            2 <= n,
            old(self).wf(n as nat),
        ensures
            frame@ == old(self).spec_frame(n as nat, color),
            *final(self) == old(self).spec_next(n as nat),
            final(self).wf(n as nat),
    {
        let pair_start = 2 * self.offset;
        let mut frame: Vec<Pixel> = Vec::new();
        let mut i: usize = 0;
        while i < n
            invariant
                i <= n,
                *self == *old(self),
                old(self).wf(n as nat),
                pair_start == 2 * old(self).offset,
                frame@.len() == i as int,
                forall|j: int| 0 <= j < i ==> frame@[j]
                    == (if j == 2 * old(self).offset || j == 2 * old(self).offset + 1
                        { color } else { Pixel::spec_off() }),
            decreases n - i,
        {
            if i == pair_start || i == pair_start + 1 {
                frame.push(color);
            } else {
                frame.push(Pixel::off());
            }
            i = i + 1;
        }
        assert(frame@ =~= old(self).spec_frame(n as nat, color));
        self.offset = (self.offset + 1) % (n / 2);
        frame
    }
}

/// One juggled ball. Positions and velocities are in tenths of a pixel
/// index, so a velocity of 3 moves the ball three tenths of a pixel per
/// tick.
#[derive(Clone, Copy, PartialEq, Eq, Structural, Debug)]
pub struct Ball {
    pub pos: i64,
    pub vel: i64,
}

/// The top of the juggling range in tenths: the last pixel's index.
pub open spec fn juggle_limit(n: nat) -> int {
    10 * (n - 1)
}

pub open spec fn ball_wf(b: Ball, limit: int) -> bool {
    &&& 0 <= b.pos <= limit
    &&& b.vel != 0
    &&& -0x1000_0000_0000_0000 <= b.vel <= 0x1000_0000_0000_0000
}

pub open spec fn spec_ball_next(b: Ball, limit: int) -> Ball {
    let moved = b.pos + b.vel;
    if moved >= limit || moved <= 0 {
        Ball {
            pos: (if moved < 0 { 0 } else if moved > limit { limit } else { moved }) as i64,
            vel: (-b.vel) as i64,
        }
    } else {
        Ball { pos: moved as i64, vel: b.vel }
    }
}

/// The pixel a ball lights: its position rounded to the nearest index.
pub open spec fn ball_led(b: Ball) -> int {
    (b.pos + 5) / 10
}

/// A ball in range stays in range: after a step its position is still
/// between the first and the last pixel, and its velocity has flipped sign
/// exactly when the move touched or crossed a boundary.
pub proof fn lemma_ball_bounds(b: Ball, n: nat)
    requires
        1 <= n,
        10 * n <= 0x1000_0000_0000_0000,
        ball_wf(b, juggle_limit(n)),
    ensures
        ball_wf(spec_ball_next(b, juggle_limit(n)), juggle_limit(n)),
        0 <= ball_led(spec_ball_next(b, juggle_limit(n))) < n,
        spec_ball_next(b, juggle_limit(n)).vel == -b.vel
            <==> (b.pos + b.vel >= juggle_limit(n) || b.pos + b.vel <= 0),
{
    let limit = juggle_limit(n);
    let nb = spec_ball_next(b, limit);
    assert(0 <= nb.pos <= limit);
    vstd::arithmetic::div_mod::lemma_div_pos_is_pos(nb.pos + 5, 10);
    vstd::arithmetic::div_mod::lemma_div_is_ordered(nb.pos + 5, limit + 5, 10);
    vstd::arithmetic::div_mod::lemma_div_multiples_vanish_fancy(n - 1, 5, 10);
    assert((10 * (n - 1) + 5) / 10 == n - 1);
}

fn step_ball(b: &mut Ball, limit: i64)
    requires
        0 <= limit <= 0x1000_0000_0000_0000,
        ball_wf(*old(b), limit as int),
    ensures
        *final(b) == spec_ball_next(*old(b), limit as int),
        ball_wf(*final(b), limit as int),
{
    let moved = b.pos + b.vel;
    if moved >= limit || moved <= 0 {
        b.vel = -b.vel;
        b.pos = if moved < 0 { 0 } else if moved > limit { limit } else { moved };
    } else {
        b.pos = moved;
    }
}

/// State of the juggle pattern: three balls bouncing along the strip.
pub struct JuggleState {
    pub b0: Ball,
    pub b1: Ball,
    pub b2: Ball,
}

impl JuggleState {
    pub open spec fn wf(self, n: nat) -> bool {
        &&& 1 <= n
        &&& ball_wf(self.b0, juggle_limit(n))
        &&& ball_wf(self.b1, juggle_limit(n))
        &&& ball_wf(self.b2, juggle_limit(n))
    }

    pub open spec fn spec_next(self, n: nat) -> JuggleState {
        JuggleState {
            b0: spec_ball_next(self.b0, juggle_limit(n)),
            b1: spec_ball_next(self.b1, juggle_limit(n)),
            b2: spec_ball_next(self.b2, juggle_limit(n)),
        }
    }

    /// The frame the balls light after moving: each ball lights the pixel
    /// nearest its position, and balls sharing a pixel simply coincide.
    pub open spec fn spec_frame(self, n: nat, color: Pixel) -> Seq<Pixel> {
        Seq::new(
            n,
            |i: int| if i == ball_led(self.b0) || i == ball_led(self.b1) || i == ball_led(self.b2)
            { color } else { Pixel::spec_off() },
        )
    }

    /// Moves each ball by its velocity, reflecting it off the strip's ends,
    /// then lights the pixel nearest each ball.
    pub fn step(&mut self, n: usize, color: Pixel) -> (frame: Vec<Pixel>)
        requires
            1 <= n,
            10 * (n as int) <= 0x1000_0000_0000_0000,
            old(self).wf(n as nat),
        ensures
            *final(self) == old(self).spec_next(n as nat),
            final(self).wf(n as nat),
            frame@ == final(self).spec_frame(n as nat, color),
    {
        let limit = 10 * (n as i64 - 1);
        step_ball(&mut self.b0, limit);
        step_ball(&mut self.b1, limit);
        step_ball(&mut self.b2, limit);
        proof {
            lemma_ball_bounds(old(self).b0, n as nat);
            lemma_ball_bounds(old(self).b1, n as nat);
            lemma_ball_bounds(old(self).b2, n as nat);
        }
        let led0 = ((self.b0.pos as u64 + 5) / 10) as usize;
        let led1 = ((self.b1.pos as u64 + 5) / 10) as usize;
        let led2 = ((self.b2.pos as u64 + 5) / 10) as usize;
        let mut frame: Vec<Pixel> = Vec::new();
        let mut i: usize = 0;
        while i < n
            invariant
                i <= n,
                *self == old(self).spec_next(n as nat),
                led0 as int == ball_led(self.b0),
                led1 as int == ball_led(self.b1),
                led2 as int == ball_led(self.b2),
                frame@.len() == i as int,
                forall|j: int| 0 <= j < i ==> frame@[j]
                    == (if j == led0 as int || j == led1 as int || j == led2 as int
                        { color } else { Pixel::spec_off() }),
            decreases n - i,
        {
            if i == led0 || i == led1 || i == led2 {
                frame.push(color);
            } else {
                frame.push(Pixel::off());
            }
            i = i + 1;
        }
        assert(frame@ =~= self.spec_frame(n as nat, color));
        frame
    }
}

} // verus!
