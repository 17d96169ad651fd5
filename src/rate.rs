use vstd::prelude::*;

verus! {

/// Lowest tempo the tempo control accepts.
pub const MIN_BPM: u32 = 60;

/// Highest tempo the tempo control accepts.
pub const MAX_BPM: u32 = 180;

/// Tempo at which samples play at their natural rate.
pub const BASE_BPM: u32 = 120;

/// A playback rate, the exact ratio `num / den`; `1 / 1` is the natural rate.
#[derive(Debug, Clone, Copy, PartialEq, Eq, Structural)]
pub struct Rate {
    pub num: u32,
    pub den: u32,
}

impl Rate {
    /// A rate is meaningful only with a nonzero denominator.
    pub open spec fn wf(self) -> bool {
        self.den > 0
    }

    /// The natural playback rate, `1 / 1`.
    pub open spec fn natural_spec() -> Rate {
        Rate { num: 1, den: 1 }
    }

    /// The natural playback rate.
    pub fn natural() -> (r: Rate)
        ensures
            r.wf(),
            r == Self::natural_spec(),
    {
        Rate { num: 1, den: 1 }
    }

    /// The rate that the tempo control sets for `bpm`: the tempo is first
    /// clamped to `MIN_BPM..=MAX_BPM`, then taken relative to `BASE_BPM`.
    pub fn for_bpm(bpm: u32) -> (r: Rate)
        ensures
            r.wf(),
            r.den == BASE_BPM,
            r.num == clamped_bpm(bpm),
    {
        Rate { num: clamp_bpm(bpm), den: BASE_BPM }
    }
}

/// `bpm` brought into `MIN_BPM..=MAX_BPM`.
pub open spec fn clamped_bpm(bpm: u32) -> u32 {
    if bpm < MIN_BPM {
        MIN_BPM
    } else if bpm > MAX_BPM {
        MAX_BPM
    } else {
        bpm
    }
}

/// Brings a tempo into the range the control accepts.
pub fn clamp_bpm(bpm: u32) -> (r: u32)
    ensures
        r == clamped_bpm(bpm),
        MIN_BPM <= r <= MAX_BPM,
{
    if bpm < MIN_BPM {
        MIN_BPM
    } else if bpm > MAX_BPM {
        MAX_BPM
    } else {
        bpm
    }
}

} // verus!
