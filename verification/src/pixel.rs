use vstd::prelude::*;

verus! {

/// One pixel of the strip: four raw channels in whatever order the strip
/// driver expects. Which channel carries which colour is the driver's
/// business; the engine only moves these values around.
#[derive(Clone, Copy, PartialEq, Eq, Structural, Debug)]
pub struct Pixel {
    pub c0: u8,
    pub c1: u8,
    pub c2: u8,
    pub c3: u8,
}

impl Pixel {
    /// The unlit pixel: every channel zero.
    pub open spec fn spec_off() -> Pixel {
        Pixel { c0: 0, c1: 0, c2: 0, c3: 0 }
    }

    /// Returns the unlit pixel.
    pub fn off() -> (p: Pixel)
        ensures
            p == Pixel::spec_off(),
    {
        Pixel { c0: 0, c1: 0, c2: 0, c3: 0 }
    }
}

/// The warm-white colour every pattern lights its pixels with. The strip
/// with big LEDs orders its channels B, R, G, W; the one with small LEDs
/// orders them B, G, R, W, and gets a cosier orange-tinted white.
pub open spec fn spec_warm_white(big_leds: bool) -> Pixel {
    if big_leds {
        Pixel { c0: 25, c1: 255, c2: 160, c3: 0 }
    } else {
        Pixel { c0: 30, c1: 170, c2: 255, c3: 0 }
    }
}

/// Returns the preset warm-white colour for the given strip kind.
pub fn warm_white(big_leds: bool) -> (p: Pixel)
    ensures
        p == spec_warm_white(big_leds),
{
    if big_leds {
        Pixel { c0: 25, c1: 255, c2: 160, c3: 0 }
    } else {
        Pixel { c0: 30, c1: 170, c2: 255, c3: 0 }
    }
}

/// The frame with its pixel order reversed end to end: pixel `i` moves to
/// position `len - 1 - i`.
pub open spec fn mirrored(s: Seq<Pixel>) -> Seq<Pixel> {
    Seq::new(s.len(), |i: int| s[s.len() - 1 - i])
}

/// Reverses a frame in place, so the strip renders back to front.
pub fn flip_leds(leds: &mut Vec<Pixel>)
    ensures
        final(leds)@ == mirrored(old(leds)@),
{
    let n = leds.len();
    let mut temp: Vec<Pixel> = Vec::new();
    let mut i: usize = 0;
    while i < n
        invariant
            leds@ == old(leds)@,
            n == leds@.len(),
            i <= n,
            temp@.len() == i as int,
            forall|j: int| 0 <= j < i ==> temp@[j] == leds@[n - 1 - j],
        decreases n - i,
    {
        let p = leds[n - 1 - i];
        temp.push(p);
        i = i + 1;
    }
    assert(temp@ =~= mirrored(old(leds)@));
    *leds = temp;
}

/// Mirroring is an involution: reversing a frame twice gives back the
/// original frame.
pub proof fn lemma_mirror_involutive(s: Seq<Pixel>)
    ensures
        mirrored(mirrored(s)) == s,
{
    assert(mirrored(mirrored(s)) =~= s);
}

} // verus!
