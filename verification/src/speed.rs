use vstd::prelude::*;
use crate::ipc::{ipc_items_of, parse_speed_command, spec_speed_of_items};

verus! {

/// The delay the render loop should sleep for: the base delay divided by
/// the speed multiplier, rounded half-up, saturated at `u64::MAX`, and left
/// untouched when the multiplier has been set to zero or below.
pub open spec fn spec_effective_delay(base: int, speed_millis: int) -> int {
    if speed_millis <= 0 {
        base
    } else {
        let q = (1000 * base + speed_millis / 2) / speed_millis;
        if q > u64::MAX { u64::MAX as int } else { q }
    }
}

/// The state the render loop and every command-channel client share: the
/// playback speed multiplier, in thousandths (1000 is normal speed). The
/// callers keep it behind one lock and hold that lock only across a get or
/// a set.
pub struct AppState {
    pub speed_millis: i64,
}

impl AppState {
    /// Starts at normal speed.
    pub fn new() -> (s: AppState)
        ensures
            s.speed_millis == 1000,
    {
        AppState { speed_millis: 1000 }
    }

    /// Overwrites the multiplier, unconditionally: the channel does not
    /// validate what a client sends.
    pub fn set_speed(&mut self, millis: i64)
        ensures
            final(self).speed_millis == millis,
    {
        self.speed_millis = millis;
    }

    /// The delay for the next frame at the current speed: the base delay
    /// divided by the multiplier, rounded to the nearest millisecond. A
    /// multiplier of zero or below leaves the base delay unchanged.
    pub fn get_delay_ms(&self, base_delay_ms: u64) -> (d: u64)
        ensures
            d as int == spec_effective_delay(base_delay_ms as int, self.speed_millis as int),
    {
        if self.speed_millis <= 0 {
            return base_delay_ms;
        }
        let sm = self.speed_millis as u128;
        let q = (1000 * (base_delay_ms as u128) + sm / 2) / sm;
        if q > u64::MAX as u128 {
            u64::MAX
        } else {
            q as u64
        }
    }

    /// Applies one line received on the command channel: the recognized
    /// set-speed command overwrites the multiplier with exactly the number
    /// sent; any other line - malformed JSON included - changes nothing.
    pub fn handle_line(&mut self, line: &[u8])
        ensures
            final(self).speed_millis as int == (match spec_speed_of_items(ipc_items_of(line@)) {
                Option::Some(v) => v,
                Option::None => old(self).speed_millis as int,
            }),
    {
        match parse_speed_command(line) {
            Option::Some(millis) => self.set_speed(millis),
            Option::None => {},
        }
    }
}

} // verus!
