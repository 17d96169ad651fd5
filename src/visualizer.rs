use vstd::prelude::*;

verus! {

/// Period of the visualizer's timer, in milliseconds.
pub const TICK_PERIOD_MS: u32 = 30;

/// How far the trail moves up on each tick, in pixels.
pub const TRAIL_SHIFT_PX: u32 = 8;

/// Side of the square canvas, in pixels.
pub const CANVAS_DIM: u32 = 1024;

/// Samples read from the analysis tap on each tick.
pub const WINDOW_LEN: usize = 512;

/// Sample value of full amplitude: samples are `i16`, full scale mapping
/// to `1.0`.
pub const FULL_SCALE: i32 = 32767;

/// Energy (sum of squared samples) above which the waveform is stroked:
/// `0.2` in units of full scale squared, `0.2 * 32767 * 32767`, rounded up.
pub const ENERGY_THRESHOLD: u128 = 214_735_258;

/// Sum of the squared samples of `w`.
pub open spec fn energy_of(w: Seq<i16>) -> int
    decreases w.len(),
{
    if w.len() == 0 {
        0
    } else {
        energy_of(w.drop_last()) + w.last() * w.last()
    }
}

/// What the host draws on one tick.
#[derive(Debug, Clone, Copy, PartialEq, Eq, Structural)]
pub struct TickPlan {
    /// Fill the canvas with the faint decay overlay.
    pub decay: bool,
    /// Move the existing image up by this many pixels.
    pub shift_px: u32,
    /// This is a waveform tick (every other tick): build the path.
    pub wave_tick: bool,
    /// Stroke the waveform path.
    pub stroke: bool,
}

/// The visualizer once running: it counts its ticks.
pub struct Visualizer {
    ticks: u64,
}

/// The plan for tick number `ticks` over window `w`.
pub open spec fn plan_for(ticks: u64, w: Seq<i16>) -> TickPlan {
    TickPlan {
        decay: true,
        shift_px: TRAIL_SHIFT_PX,
        wave_tick: ticks % 2 == 0,
        stroke: ticks % 2 == 0 && energy_of(w) > ENERGY_THRESHOLD,
    }
}

/// The tick count after `ticks`, wrapping to zero (which keeps the
/// alternation of even and odd ticks).
pub open spec fn next_tick(ticks: u64) -> u64 {
    if ticks == u64::MAX {
        0
    } else {
        (ticks + 1) as u64
    }
}

/// Sum of the squared samples of `w`.
pub fn energy(w: &Vec<i16>) -> (r: u128)
    ensures
        r == energy_of(w@),
{
    let mut sum: u128 = 0;
    let mut k: usize = 0;
    while k < w.len()
        invariant
            k <= w@.len(),
            sum == energy_of(w@.take(k as int)),
            sum <= k * 0x4000_0000,
        decreases w@.len() - k,
    {
        let x = w[k] as i32;
        proof {
            assert(x * x <= 0x4000_0000 && x * x >= 0) by (nonlinear_arith)
                requires -32768 <= x <= 32767;
        }
        let sq = x * x;
        proof {
            assert(w@.take(k + 1).drop_last() =~= w@.take(k as int));
            assert(k < usize::MAX);
        }
        sum = sum + sq as u128;
        k = k + 1;
    }
    assert(w@.take(k as int) =~= w@);
    sum
}

impl Visualizer {
    /// Ticks run so far (modulo 2^64).
    pub closed spec fn view(&self) -> u64 {
        self.ticks
    }

    /// A visualizer that has not ticked yet.
    pub fn new() -> (r: Visualizer)
        ensures
            r@ == 0,
    {
        Visualizer { ticks: 0 }
    }

    /// Plans one tick over the amplitude window read from the analysis tap:
    /// the decay fill and upward shift every tick; on even ticks the
    /// waveform, stroked only when the window's energy exceeds
    /// `ENERGY_THRESHOLD`.
    pub fn tick(&mut self, window: &Vec<i16>) -> (plan: TickPlan)
        ensures
            plan == plan_for(old(self)@, window@),
            final(self)@ == next_tick(old(self)@),
    {
        let wave_tick = self.ticks % 2 == 0;
        let stroke = wave_tick && energy(window) > ENERGY_THRESHOLD;
        self.ticks = self.ticks.wrapping_add(1);
        TickPlan { decay: true, shift_px: TRAIL_SHIFT_PX, wave_tick, stroke }
    }
}

/// A silent window has no energy, so it is never stroked; the decay is
/// still applied.
pub proof fn lemma_silence_never_strokes(ticks: u64, w: Seq<i16>)
    requires
        forall|i: int| 0 <= i < w.len() ==> w[i] == 0,
    ensures
        energy_of(w) == 0,
        !plan_for(ticks, w).stroke,
        plan_for(ticks, w).decay,
    decreases w.len(),
{
    if w.len() > 0 {
        lemma_silence_never_strokes(ticks, w.drop_last());
    }
}

/// Even and odd ticks alternate, also where the count wraps.
pub proof fn lemma_wave_ticks_alternate(ticks: u64)
    ensures
        (next_tick(ticks) % 2 == 0) != (ticks % 2 == 0),
{
}

} // verus!
