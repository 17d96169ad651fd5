use crate::engine::TriggerEvent;
use vstd::prelude::*;

verus! {

/// First trigger identifier given to mouse presses. Touch identifiers map
/// below it, so a press and a touch never share a key.
pub const MOUSE_ID_BASE: u64 = 0x1_0000_0000;

/// The trigger identifier of platform touch point `t`: its 32 bits, read
/// unsigned.
pub open spec fn touch_key(t: i32) -> u64 {
    if t >= 0 {
        t as u64
    } else {
        (t + 0x1_0000_0000) as u64
    }
}

/// The trigger identifier of a voice's mouse press number `count`.
pub open spec fn mouse_key(count: u32) -> u64 {
    (MOUSE_ID_BASE + count) as u64
}

/// The count after `count`, wrapping to zero.
pub open spec fn next_count(count: u32) -> u32 {
    if count == u32::MAX {
        0
    } else {
        (count + 1) as u32
    }
}

/// One press event per touch point, in order.
pub open spec fn touch_presses(voice: usize, touches: Seq<i32>) -> Seq<TriggerEvent> {
    touches.map_values(|t: i32| TriggerEvent::Press { voice, id: touch_key(t) })
}

/// One release event per touch point, in order.
pub open spec fn touch_releases(voice: usize, touches: Seq<i32>) -> Seq<TriggerEvent> {
    touches.map_values(|t: i32| TriggerEvent::Release { voice, id: touch_key(t) })
}

/// Turns raw pointer and touch input on the voice buttons into canonical
/// trigger events. It keeps one press counter per voice for the mouse.
pub struct Multiplexer {
    presses: Vec<u32>,
}

fn touch_id(t: i32) -> (r: u64)
    ensures
        r == touch_key(t),
        r < MOUSE_ID_BASE,
{
    if t >= 0 {
        t as u64
    } else {
        (t as i64 + 0x1_0000_0000i64) as u64
    }
}

impl Multiplexer {
    /// Press count of each voice: the next mouse press of voice `v` gets
    /// `mouse_key(self@[v])`.
    pub closed spec fn view(&self) -> Seq<u32> {
        self.presses@
    }

    /// A multiplexer for `voices` buttons, no press counted.
    pub fn new(voices: usize) -> (r: Multiplexer)
        ensures
            r@.len() == voices,
            forall|v: int| 0 <= v < voices ==> r@[v] == 0,
    {
        let mut presses: Vec<u32> = Vec::new();
        let mut k: usize = 0;
        while k < voices
            invariant
                k <= voices,
                presses@.len() == k,
                forall|v: int| 0 <= v < k ==> presses@[v] == 0,
            decreases voices - k,
        {
            presses.push(0);
            k = k + 1;
        }
        Multiplexer { presses }
    }

    /// A mouse press on `voice`'s button: a press under an identifier of its
    /// own, taken from the voice's counter, which then moves on. A voice the
    /// multiplexer does not know gets `MOUSE_ID_BASE` and counts nothing.
    pub fn mouse_down(&mut self, voice: usize) -> (ev: TriggerEvent)
        ensures
            voice < old(self)@.len() ==> {
                &&& ev == (TriggerEvent::Press { voice, id: mouse_key(old(self)@[voice as int]) })
                &&& final(self)@ == old(self)@.update(
                    voice as int,
                    next_count(old(self)@[voice as int]),
                )
            },
            voice >= old(self)@.len() ==> {
                &&& ev == (TriggerEvent::Press { voice, id: MOUSE_ID_BASE })
                &&& final(self)@ == old(self)@
            },
    {
        if voice >= self.presses.len() {
            return TriggerEvent::Press { voice, id: MOUSE_ID_BASE };
        }
        let count = self.presses[voice];
        let id = MOUSE_ID_BASE + count as u64;
        self.presses.set(voice, count.wrapping_add(1));
        TriggerEvent::Press { voice, id }
    }

    /// Touch points starting on `voice`'s button: one press per point, under
    /// the platform's identifier.
    pub fn touch_start(&self, voice: usize, touches: &Vec<i32>) -> (evs: Vec<TriggerEvent>)
        ensures
            evs@ == touch_presses(voice, touches@),
    {
        let mut evs: Vec<TriggerEvent> = Vec::new();
        let mut k: usize = 0;
        while k < touches.len()
            invariant
                k <= touches@.len(),
                evs@ == touch_presses(voice, touches@.take(k as int)),
            decreases touches@.len() - k,
        {
            let id = touch_id(touches[k]);
            evs.push(TriggerEvent::Press { voice, id });
            k = k + 1;
            assert(touches@.take(k as int) =~= touches@.take(k - 1).push(touches@[k - 1]));
            assert(evs@ =~= touch_presses(voice, touches@.take(k as int)));
        }
        assert(touches@.take(k as int) =~= touches@);
        evs
    }

    /// Touch points ending or cancelled on `voice`'s button: one release per
    /// point, under the identifier that started it.
    pub fn touch_end(&self, voice: usize, touches: &Vec<i32>) -> (evs: Vec<TriggerEvent>)
        ensures
            evs@ == touch_releases(voice, touches@),
    {
        let mut evs: Vec<TriggerEvent> = Vec::new();
        let mut k: usize = 0;
        while k < touches.len()
            invariant
                k <= touches@.len(),
                evs@ == touch_releases(voice, touches@.take(k as int)),
            decreases touches@.len() - k,
        {
            let id = touch_id(touches[k]);
            evs.push(TriggerEvent::Release { voice, id });
            k = k + 1;
            assert(touches@.take(k as int) =~= touches@.take(k - 1).push(touches@[k - 1]));
            assert(evs@ =~= touch_releases(voice, touches@.take(k as int)));
        }
        assert(touches@.take(k as int) =~= touches@);
        evs
    }

    /// A pointer released anywhere on the page: everything is released, so
    /// that a drag off a button cannot leave a voice looping.
    pub fn pointer_up(&self) -> (ev: TriggerEvent)
        ensures
            ev == TriggerEvent::ReleaseAll,
    {
        TriggerEvent::ReleaseAll
    }
}

} // verus!
