use crate::rate::Rate;
use crate::samples::{after_decode, after_failure, after_fetch, has_bytes, SampleStatus, SampleStore};
use std::collections::HashMap;
use vstd::prelude::*;

verus! {

broadcast use vstd::std_specs::hash::group_hash_axioms;

/// One live, looping playback of a voice's sample, as the instance table
/// records it.
#[derive(Debug, Clone, Copy, PartialEq, Eq, Structural)]
pub struct Instance {
    /// Names the audio node that plays this instance; never reused.
    pub serial: u64,
    /// Playback rate fixed when the instance was created.
    pub rate: Rate,
    /// Whether the node loops; cleared on release.
    pub looping: bool,
}

/// A change the host must make to the audio graph, in the order given.
#[derive(Debug, Clone, Copy, PartialEq, Eq, Structural)]
pub enum GraphAction {
    /// Stop the node `serial` at once and disconnect it.
    Stop { serial: u64 },
    /// Create node `serial` for `voice`'s decoded sample, set it to loop at
    /// `rate`, connect it to the shared analysis tap and start it.
    Start { voice: usize, trigger: u64, serial: u64, rate: Rate },
    /// Clear the loop flag of node `serial`; it plays out its current cycle.
    ClearLoop { serial: u64 },
}

/// A canonical input event for the engine.
#[derive(Debug, Clone, Copy, PartialEq, Eq, Structural)]
pub enum TriggerEvent {
    /// Start (or restart) the instance at `(voice, id)`.
    Press { voice: usize, id: u64 },
    /// Release the instance at `(voice, id)`.
    Release { voice: usize, id: u64 },
    /// Release every live instance.
    ReleaseAll,
}

/// Why a trigger did nothing.
#[derive(Debug, Clone, Copy, PartialEq, Eq, Structural)]
pub enum TriggerError {
    /// The audio graph has not been set up yet.
    NotInitialized,
    /// No voice has that index.
    UnknownVoice,
    /// The voice has no decoded sample (still loading, or failed).
    SampleMissing,
    /// Every node serial has been handed out.
    SerialsExhausted,
}

/// The playback engine: sample status per voice and the instance table,
/// mapping voice index, then trigger identifier, to the live instance.
pub struct Engine {
    initialized: bool,
    samples: SampleStore,
    table: Vec<HashMap<u64, Instance>>,
    rate: Rate,
    next_serial: u64,
}

impl Engine {
    /// Whether `init` has run.
    pub closed spec fn initialized(&self) -> bool {
        self.initialized
    }

    /// Sample status of each voice.
    pub closed spec fn samples(&self) -> Seq<SampleStatus> {
        self.samples@
    }

    /// The instance table: per voice, trigger identifier to live instance.
    pub closed spec fn table(&self) -> Seq<Map<u64, Instance>> {
        self.table@.map_values(|m: HashMap<u64, Instance>| m@)
    }

    /// Rate given to instances created from now on.
    pub closed spec fn current_rate(&self) -> Rate {
        self.rate
    }

    /// Serial the next created instance gets.
    pub closed spec fn next_serial(&self) -> u64 {
        self.next_serial
    }

    /// Number of voices.
    pub open spec fn voices(&self) -> nat {
        self.table().len()
    }

    /// A live instance stands at `(voice, id)`.
    pub open spec fn has_instance(&self, voice: int, id: u64) -> bool {
        0 <= voice < self.voices() && self.table()[voice].contains_key(id)
    }

    /// Well-formedness: one sample status per voice, a meaningful rate, and
    /// instance serials that are distinct and below `next_serial`.
    pub open spec fn wf(&self) -> bool {
        &&& self.samples().len() == self.voices()
        &&& self.current_rate().wf()
        &&& forall|v: int, k: u64|
            self.has_instance(v, k) ==> #[trigger] self.table()[v][k].serial < self.next_serial()
        &&& forall|v1: int, k1: u64, v2: int, k2: u64|
            #![trigger self.table()[v1][k1], self.table()[v2][k2]]
            self.has_instance(v1, k1) && self.has_instance(v2, k2) && self.table()[v1][k1].serial
                == self.table()[v2][k2].serial ==> v1 == v2 && k1 == k2
    }

    /// `post` differs from `pre` in the instance table and serial counter only.
    pub open spec fn same_settings(pre: &Engine, post: &Engine) -> bool {
        &&& post.initialized() == pre.initialized()
        &&& post.samples() == pre.samples()
        &&& post.current_rate() == pre.current_rate()
    }

    /// `post` is `pre` in every observable respect.
    pub open spec fn unchanged(pre: &Engine, post: &Engine) -> bool {
        &&& Self::same_settings(pre, post)
        &&& post.table() == pre.table()
        &&& post.next_serial() == pre.next_serial()
    }

    /// Why a trigger of `voice` on `pre` is refused, if it is.
    pub open spec fn trigger_error(pre: &Engine, voice: usize) -> Option<TriggerError> {
        if !pre.initialized() {
            Some(TriggerError::NotInitialized)
        } else if voice >= pre.voices() {
            Some(TriggerError::UnknownVoice)
        } else if pre.samples()[voice as int] != SampleStatus::Decoded {
            Some(TriggerError::SampleMissing)
        } else if pre.next_serial() == u64::MAX {
            Some(TriggerError::SerialsExhausted)
        } else {
            None
        }
    }

    /// The instance that a trigger on `pre` creates.
    pub open spec fn fresh_instance(pre: &Engine) -> Instance {
        Instance { serial: pre.next_serial(), rate: pre.current_rate(), looping: true }
    }

    /// The graph changes of a successful trigger: a hard stop of the
    /// instance already at the key, if any, then the start of the new one.
    pub open spec fn trigger_actions(pre: &Engine, voice: usize, id: u64) -> Seq<GraphAction> {
        let start = GraphAction::Start {
            voice,
            trigger: id,
            serial: pre.next_serial(),
            rate: pre.current_rate(),
        };
        if pre.has_instance(voice as int, id) {
            seq![GraphAction::Stop { serial: pre.table()[voice as int][id].serial }, start]
        } else {
            seq![start]
        }
    }

    /// `post` is `pre` after a successful trigger at `(voice, id)`.
    pub open spec fn triggered(pre: &Engine, post: &Engine, voice: usize, id: u64) -> bool {
        &&& Self::same_settings(pre, post)
        &&& post.next_serial() == pre.next_serial() + 1
        &&& post.table() == pre.table().update(
            voice as int,
            pre.table()[voice as int].insert(id, Self::fresh_instance(pre)),
        )
    }

    /// What a trigger at `(voice, id)` does: refused with the reason
    /// `trigger_error` gives and nothing changed, or else the replacement.
    pub open spec fn trigger_post(
        pre: &Engine,
        post: &Engine,
        voice: usize,
        id: u64,
        r: Result<Vec<GraphAction>, TriggerError>,
    ) -> bool {
        match r {
            Ok(acts) => {
                &&& Self::trigger_error(pre, voice) is None
                &&& acts@ == Self::trigger_actions(pre, voice, id)
                &&& Self::triggered(pre, post, voice, id)
            },
            Err(e) => {
                &&& Self::trigger_error(pre, voice) == Some(e)
                &&& Self::unchanged(pre, post)
            },
        }
    }

    /// `post` is `pre` with the rate for new instances set to `rate`; the
    /// table, and so every live instance's rate, is untouched.
    pub open spec fn speed_set(pre: &Engine, post: &Engine, rate: Rate) -> bool {
        &&& post.current_rate() == rate
        &&& post.initialized() == pre.initialized()
        &&& post.samples() == pre.samples()
        &&& post.table() == pre.table()
        &&& post.next_serial() == pre.next_serial()
    }

    /// What a release at `(voice, id)` does: a live instance there has its
    /// loop flag cleared and stays in the table; otherwise nothing happens.
    pub open spec fn release_post(
        pre: &Engine,
        post: &Engine,
        voice: usize,
        id: u64,
        acts: Seq<GraphAction>,
    ) -> bool {
        if pre.has_instance(voice as int, id) {
            let inst = pre.table()[voice as int][id];
            &&& acts == seq![GraphAction::ClearLoop { serial: inst.serial }]
            &&& Self::same_settings(pre, post)
            &&& post.next_serial() == pre.next_serial()
            &&& post.table() == pre.table().update(
                voice as int,
                pre.table()[voice as int].insert(id, released(inst)),
            )
        } else {
            &&& acts == Seq::<GraphAction>::empty()
            &&& Self::unchanged(pre, post)
        }
    }

    /// What releasing everything does: every instance of every voice has its
    /// loop flag cleared, the table keeps its keys, and the actions clear
    /// exactly the live instances, each once.
    pub open spec fn release_all_post(pre: &Engine, post: &Engine, acts: Seq<GraphAction>) -> bool {
        &&& acts.no_duplicates()
        &&& Self::same_settings(pre, post)
        &&& post.next_serial() == pre.next_serial()
        &&& post.voices() == pre.voices()
        &&& forall|v: int|
            0 <= v < pre.voices() ==> #[trigger] post.table()[v] == released_all(pre.table()[v])
        &&& forall|a: GraphAction|
            #![trigger acts.contains(a)]
            acts.contains(a) <==> exists|v: int| 0 <= v < pre.voices() && clears_one_of(pre.table()[v], a)
    }

    /// What an input event does, by its kind.
    pub open spec fn handle_post(
        pre: &Engine,
        post: &Engine,
        ev: TriggerEvent,
        r: Result<Vec<GraphAction>, TriggerError>,
    ) -> bool {
        match ev {
            TriggerEvent::Press { voice, id } => Self::trigger_post(pre, post, voice, id, r),
            TriggerEvent::Release { voice, id } => r matches Ok(acts) && Self::release_post(
                pre,
                post,
                voice,
                id,
                acts@,
            ),
            TriggerEvent::ReleaseAll => r matches Ok(acts) && Self::release_all_post(pre, post, acts@),
        }
    }

    /// An instance at `(voice, id)` with node `serial` ended on its own (or
    /// its node could not be created): it leaves the table.
    pub open spec fn ended_post(pre: &Engine, post: &Engine, voice: usize, id: u64, serial: u64, r: bool) -> bool {
        &&& r == (pre.has_instance(voice as int, id) && pre.table()[voice as int][id].serial == serial)
        &&& r ==> {
            &&& Self::same_settings(pre, post)
            &&& post.next_serial() == pre.next_serial()
            &&& post.table() == pre.table().update(voice as int, pre.table()[voice as int].remove(id))
        }
        &&& !r ==> Self::unchanged(pre, post)
    }

    /// An engine for `voices` voices, no sample loaded, not initialized,
    /// at the natural rate.
    pub fn new(voices: usize) -> (r: Engine)
        ensures
            r.wf(),
            r.voices() == voices,
            !r.initialized(),
            r.next_serial() == 0,
            r.current_rate() == Rate::natural_spec(),
            forall|v: int| 0 <= v < voices ==> r.samples()[v] == SampleStatus::Pending,
            forall|v: int| 0 <= v < voices ==> #[trigger] r.table()[v] == Map::<u64, Instance>::empty(),
    {
        let samples = SampleStore::new(voices);
        let mut table: Vec<HashMap<u64, Instance>> = Vec::new();
        let mut k: usize = 0;
        while k < voices
            invariant
                k <= voices,
                table@.len() == k,
                forall|v: int| 0 <= v < k ==> (#[trigger] table@[v])@ == Map::<u64, Instance>::empty(),
            decreases voices - k,
        {
            table.push(HashMap::new());
            k = k + 1;
        }
        let r = Engine { initialized: false, samples, table, rate: Rate::natural(), next_serial: 0 };
        assert(r.table().len() == voices);
        r
    }

    /// Sets up the engine on the first user interaction. Returns whether this
    /// call did it, so that the host creates the audio graph exactly once.
    pub fn init(&mut self) -> (first: bool)
        requires
            old(self).wf(),
        ensures
            final(self).wf(),
            first == !old(self).initialized(),
            final(self).initialized(),
            final(self).samples() == old(self).samples(),
            final(self).current_rate() == old(self).current_rate(),
            final(self).table() == old(self).table(),
            final(self).next_serial() == old(self).next_serial(),
    {
        let first = !self.initialized;
        self.initialized = true;
        first
    }

    /// Sets the rate for instances created from now on; live instances keep
    /// theirs.
    pub fn set_speed(&mut self, rate: Rate)
        requires
            old(self).wf(),
            rate.wf(),
        ensures
            final(self).wf(),
            Self::speed_set(old(self), final(self), rate),
    {
        self.rate = rate;
    }

    /// Starts a new looping instance of `voice` under trigger identifier
    /// `id`, replacing (hard-stopping) the one already there. Refused, with
    /// nothing changed, when `trigger_error` names a reason.
    pub fn trigger(&mut self, voice: usize, id: u64) -> (r: Result<Vec<GraphAction>, TriggerError>)
        requires
            old(self).wf(),
        ensures
            final(self).wf(),
            Self::trigger_post(old(self), final(self), voice, id, r),
    {
        if !self.initialized {
            return Err(TriggerError::NotInitialized);
        }
        if voice >= self.table.len() {
            return Err(TriggerError::UnknownVoice);
        }
        if !self.samples.is_decoded(voice) {
            return Err(TriggerError::SampleMissing);
        }
        if self.next_serial == u64::MAX {
            return Err(TriggerError::SerialsExhausted);
        }
        let ghost pre = *self;
        let serial = self.next_serial;
        let inst = Instance { serial, rate: self.rate, looping: true };
        let mut acts: Vec<GraphAction> = Vec::new();
        match self.table[voice].get(&id) {
            Some(old_inst) => {
                acts.push(GraphAction::Stop { serial: old_inst.serial });
            },
            None => {},
        }
        acts.push(GraphAction::Start { voice, trigger: id, serial, rate: self.rate });
        self.table[voice].insert(id, inst);
        self.next_serial = serial + 1;
        proof {
            assert(self.table() =~= pre.table().update(
                voice as int,
                pre.table()[voice as int].insert(id, Self::fresh_instance(&pre)),
            ));
            assert(acts@ =~= Self::trigger_actions(&pre, voice, id));
        }
        Ok(acts)
    }

    /// Clears the loop flag of the instance at `(voice, id)`, which then
    /// plays out its current cycle. A no-op for an unknown key.
    pub fn release(&mut self, voice: usize, id: u64) -> (acts: Vec<GraphAction>)
        requires
            old(self).wf(),
        ensures
            final(self).wf(),
            Self::release_post(old(self), final(self), voice, id, acts@),
    {
        let ghost pre = *self;
        let mut acts: Vec<GraphAction> = Vec::new();
        if voice >= self.table.len() {
            return acts;
        }
        let inst = match self.table[voice].get(&id) {
            Some(i) => *i,
            None => {
                return acts;
            },
        };
        acts.push(GraphAction::ClearLoop { serial: inst.serial });
        self.table[voice].insert(id, Instance { serial: inst.serial, rate: inst.rate, looping: false });
        proof {
            assert(self.table() =~= pre.table().update(
                voice as int,
                pre.table()[voice as int].insert(id, released(inst)),
            ));
            assert(acts@ =~= seq![GraphAction::ClearLoop { serial: inst.serial }]);
        }
        acts
    }

    /// Clears the loop flag of every live instance of every voice. The
    /// instances stay in the table.
    pub fn release_all(&mut self) -> (acts: Vec<GraphAction>)
        requires
            old(self).wf(),
        ensures
            final(self).wf(),
            Self::release_all_post(old(self), final(self), acts@),
    {
        let ghost pre = *self;
        let mut acts: Vec<GraphAction> = Vec::new();
        let n = self.table.len();
        let mut v: usize = 0;
        while v < n
            invariant
                n == pre.voices(),
                pre.wf(),
                acts@.no_duplicates(),
                v <= n,
                self.table@.len() == n,
                Self::same_settings(&pre, self),
                self.next_serial() == pre.next_serial(),
                forall|u: int| 0 <= u < v ==> #[trigger] self.table()[u] == released_all(pre.table()[u]),
                forall|u: int| v <= u < n ==> #[trigger] self.table()[u] == pre.table()[u],
                forall|a: GraphAction|
                    #![trigger acts@.contains(a)]
                    acts@.contains(a) <==> exists|u: int| 0 <= u < v && clears_one_of(pre.table()[u], a),
            decreases n - v,
        {
            let ghost acts_before = acts@;
            let ghost t_before = self.table@;
            let ghost e_before = *self;
            proof {
                let mv = pre.table()[v as int];
                assert(e_before.table()[v as int] == mv);
                assert(t_before[v as int]@ == mv);
                assert forall|k1: u64, k2: u64|
                    mv.contains_key(k1) && mv.contains_key(k2) && #[trigger] mv[k1].serial == #[trigger] mv[k2].serial
                    implies k1 == k2 by {
                    assert(pre.has_instance(v as int, k1) && pre.has_instance(v as int, k2));
                }
                assert forall|a: GraphAction| #[trigger] clears_one_of(mv, a) implies !acts@.contains(a) by {
                    if acts@.contains(a) {
                        let u = choose|u: int| 0 <= u < v && clears_one_of(pre.table()[u], a);
                        let k1 = choose|k: u64| pre.table()[u].contains_key(k) && a == (GraphAction::ClearLoop { serial: pre.table()[u][k].serial });
                        let k2 = choose|k: u64| mv.contains_key(k) && a == (GraphAction::ClearLoop { serial: mv[k].serial });
                        assert(pre.has_instance(u, k1) && pre.has_instance(v as int, k2));
                        assert(pre.table()[u][k1].serial == pre.table()[v as int][k2].serial);
                    }
                }
            }
            release_map(&mut self.table[v], &mut acts);
            proof {
                assert(self.table@ == t_before.update(v as int, self.table@[v as int]));
                assert(e_before.table()[v as int] == t_before[v as int]@);
                assert(t_before[v as int]@ == pre.table()[v as int]);
                assert forall|u: int| 0 <= u < n implies #[trigger] self.table()[u] == if u <= v {
                    released_all(pre.table()[u])
                } else {
                    pre.table()[u]
                } by {
                    assert(e_before.table()[u] == t_before[u]@);
                }
                assert forall|a: GraphAction| acts@.contains(a) <==> exists|u: int|
                    0 <= u < v + 1 && clears_one_of(pre.table()[u], a) by {
                    if acts_before.contains(a) {
                        let u = choose|u: int| 0 <= u < v && clears_one_of(pre.table()[u], a);
                        assert(0 <= u < v + 1 && clears_one_of(pre.table()[u], a));
                    }
                    if clears_one_of(pre.table()[v as int], a) {
                        assert(0 <= v < v + 1 && clears_one_of(pre.table()[v as int], a));
                    }
                    if exists|u: int| 0 <= u < v + 1 && clears_one_of(pre.table()[u], a) {
                        let u = choose|u: int| 0 <= u < v + 1 && clears_one_of(pre.table()[u], a);
                        if u < v {
                            assert(acts_before.contains(a));
                        }
                    }
                }
            }
            v = v + 1;
        }
        proof {
            assert forall|v1: int, k1: u64| self.has_instance(v1, k1) implies pre.has_instance(v1, k1)
                && self.table()[v1][k1] == released(pre.table()[v1][k1]) by {
                assert(self.table()[v1] == released_all(pre.table()[v1]));
            }
        }
        acts
    }

    /// Removes the instance at `(voice, id)` if its node is `serial`; a
    /// report about a node that was already replaced changes nothing.
    pub fn ended(&mut self, voice: usize, id: u64, serial: u64) -> (r: bool)
        requires
            old(self).wf(),
        ensures
            final(self).wf(),
            Self::ended_post(old(self), final(self), voice, id, serial, r),
    {
        let ghost pre = *self;
        if voice >= self.table.len() {
            return false;
        }
        let matches = match self.table[voice].get(&id) {
            Some(i) => i.serial == serial,
            None => false,
        };
        if !matches {
            return false;
        }
        self.table[voice].remove(&id);
        proof {
            assert(self.table() =~= pre.table().update(voice as int, pre.table()[voice as int].remove(id)));
        }
        true
    }

    /// Number of voices.
    pub fn voice_count(&self) -> (r: usize)
        requires
            self.wf(),
        ensures
            r == self.voices(),
    {
        self.table.len()
    }

    /// Whether `init` has run.
    pub fn is_initialized(&self) -> (r: bool)
        ensures
            r == self.initialized(),
    {
        self.initialized
    }

    /// The rate given to instances created from now on.
    pub fn rate(&self) -> (r: Rate)
        ensures
            r == self.current_rate(),
    {
        self.rate
    }

    /// The live instance at `(voice, id)`, if any.
    pub fn instance(&self, voice: usize, id: u64) -> (r: Option<Instance>)
        ensures
            r == if self.has_instance(voice as int, id) {
                Some(self.table()[voice as int][id])
            } else {
                None
            },
    {
        if voice >= self.table.len() {
            return None;
        }
        match self.table[voice].get(&id) {
            Some(i) => Some(*i),
            None => None,
        }
    }

    /// Whether `voice` is sounding: it has at least one live instance,
    /// released or not.
    pub fn is_sounding(&self, voice: usize) -> (r: bool)
        ensures
            r == exists|id: u64| self.has_instance(voice as int, id),
    {
        if voice >= self.table.len() {
            return false;
        }
        let empty = self.table[voice].is_empty();
        proof {
            let m = self.table()[voice as int];
            if !empty {
                assert(m.dom() != Set::<u64>::empty()) by {
                    if m.dom() == Set::<u64>::empty() {
                        assert(m =~= Map::<u64, Instance>::empty());
                    }
                }
                let k = m.dom().choose();
                assert(self.has_instance(voice as int, k));
            } else {
                assert forall|id: u64| !self.has_instance(voice as int, id) by {
                    assert(!Map::<u64, Instance>::empty().contains_key(id));
                }
            }
        }
        !empty
    }

    /// Sample status of `voice`; an unknown voice reads as `Failed`.
    pub fn sample_status(&self, voice: usize) -> (r: SampleStatus)
        ensures
            voice < self.samples().len() ==> r == self.samples()[voice as int],
            voice >= self.samples().len() ==> r == SampleStatus::Failed,
    {
        self.samples.status(voice)
    }

    /// Records that the bytes of `voice` arrived.
    pub fn sample_fetched(&mut self, voice: usize)
        requires
            old(self).wf(),
        ensures
            final(self).wf(),
            final(self).samples() == if voice < old(self).voices() {
                old(self).samples().update(voice as int, after_fetch(old(self).samples()[voice as int]))
            } else {
                old(self).samples()
            },
            final(self).initialized() == old(self).initialized(),
            final(self).current_rate() == old(self).current_rate(),
            final(self).table() == old(self).table(),
            final(self).next_serial() == old(self).next_serial(),
    {
        self.samples.fetched(voice);
    }

    /// Records that the bytes of `voice` were decoded: it can be triggered.
    pub fn sample_decoded(&mut self, voice: usize)
        requires
            old(self).wf(),
        ensures
            final(self).wf(),
            final(self).samples() == if voice < old(self).voices() {
                old(self).samples().update(voice as int, after_decode(old(self).samples()[voice as int]))
            } else {
                old(self).samples()
            },
            final(self).initialized() == old(self).initialized(),
            final(self).current_rate() == old(self).current_rate(),
            final(self).table() == old(self).table(),
            final(self).next_serial() == old(self).next_serial(),
    {
        self.samples.decoded(voice);
    }

    /// Records a load error for `voice`: without a sample it stays
    /// untriggerable for good.
    pub fn sample_failed(&mut self, voice: usize)
        requires
            old(self).wf(),
        ensures
            final(self).wf(),
            final(self).samples() == if voice < old(self).voices() {
                old(self).samples().update(voice as int, after_failure(old(self).samples()[voice as int]))
            } else {
                old(self).samples()
            },
            final(self).initialized() == old(self).initialized(),
            final(self).current_rate() == old(self).current_rate(),
            final(self).table() == old(self).table(),
            final(self).next_serial() == old(self).next_serial(),
    {
        self.samples.failed(voice);
    }

    /// Every voice has its bytes: the pad may be started.
    pub fn all_fetched(&self) -> (r: bool)
        ensures
            r == forall|i: int| 0 <= i < self.samples().len() ==> has_bytes(#[trigger] self.samples()[i]),
    {
        let r = self.samples.all_fetched();
        assert(self.samples() == self.samples@);
        r
    }

    /// No voice is still waiting for its bytes.
    pub fn all_settled(&self) -> (r: bool)
        ensures
            r == forall|i: int|
                0 <= i < self.samples().len() ==> #[trigger] self.samples()[i] != SampleStatus::Pending,
    {
        let r = self.samples.all_settled();
        assert(self.samples() == self.samples@);
        r
    }

    /// Every voice has a decoded sample.
    pub fn all_loaded(&self) -> (r: bool)
        ensures
            r == forall|i: int|
                0 <= i < self.samples().len() ==> #[trigger] self.samples()[i] == SampleStatus::Decoded,
    {
        self.samples.all_loaded()
    }

    /// Share of voices whose bytes have arrived, in whole percent.
    pub fn loaded_percent(&self) -> (r: u32)
        ensures
            self.samples().len() == 0 ==> r == 100,
            self.samples().len() > 0 ==> r == crate::samples::count_with_bytes(
                self.samples(),
                self.samples().len() as int,
            ) * 100 / self.samples().len(),
    {
        self.samples.loaded_percent()
    }

    /// Applies one input event.
    pub fn handle(&mut self, ev: TriggerEvent) -> (r: Result<Vec<GraphAction>, TriggerError>)
        requires
            old(self).wf(),
        ensures
            final(self).wf(),
            Self::handle_post(old(self), final(self), ev, r),
    {
        match ev {
            TriggerEvent::Press { voice, id } => self.trigger(voice, id),
            TriggerEvent::Release { voice, id } => Ok(self.release(voice, id)),
            TriggerEvent::ReleaseAll => Ok(self.release_all()),
        }
    }
}

/// `i` with its loop flag cleared.
pub open spec fn released(i: Instance) -> Instance {
    Instance { serial: i.serial, rate: i.rate, looping: false }
}

/// Every instance of `m` released; the keys stay.
pub open spec fn released_all(m: Map<u64, Instance>) -> Map<u64, Instance> {
    m.map_values(|i: Instance| released(i))
}

/// `a` clears the loop flag of an instance of `m`.
pub open spec fn clears_one_of(m: Map<u64, Instance>, a: GraphAction) -> bool {
    exists|k: u64| m.contains_key(k) && a == (GraphAction::ClearLoop { serial: m[k].serial })
}

/// Releases every instance of `m`, appending one loop-clearing action per
/// instance to `acts`.
fn release_map(m: &mut HashMap<u64, Instance>, acts: &mut Vec<GraphAction>)
    requires
        old(acts)@.no_duplicates(),
        forall|k1: u64, k2: u64|
            #![trigger old(m)@[k1], old(m)@[k2]]
            old(m)@.contains_key(k1) && old(m)@.contains_key(k2) && old(m)@[k1].serial == old(m)@[k2].serial
                ==> k1 == k2,
        forall|a: GraphAction| #[trigger] clears_one_of(old(m)@, a) ==> !old(acts)@.contains(a),
    ensures
        final(acts)@.no_duplicates(),
        final(m)@ == released_all(old(m)@),
        forall|a: GraphAction|
            #![trigger final(acts)@.contains(a)]
            final(acts)@.contains(a) <==> old(acts)@.contains(a) || clears_one_of(old(m)@, a),
{
    let ghost m0 = m@;
    let ghost acts0 = acts@;
    let keys = keys_of(m);
    let mut j: usize = 0;
    while j < keys.len()
        invariant
            j <= keys@.len(),
            keys@.to_set() == m0.dom(),
            keys@.no_duplicates(),
            acts@.no_duplicates(),
            acts0.no_duplicates(),
            forall|k1: u64, k2: u64|
                #![trigger m0[k1], m0[k2]]
                m0.contains_key(k1) && m0.contains_key(k2) && m0[k1].serial == m0[k2].serial ==> k1 == k2,
            forall|a: GraphAction| #[trigger] clears_one_of(m0, a) ==> !acts0.contains(a),
            m@.dom() == m0.dom(),
            forall|k: u64|
                #![trigger m@[k]]
                m0.contains_key(k) ==> m@[k] == if keys@.take(j as int).contains(k) {
                    released(m0[k])
                } else {
                    m0[k]
                },
            forall|a: GraphAction|
                #![trigger acts@.contains(a)]
                acts@.contains(a) <==> acts0.contains(a) || exists|i: int|
                    0 <= i < j && a == (GraphAction::ClearLoop { serial: m0[keys@[i]].serial }),
        decreases keys@.len() - j,
    {
        let k = keys[j];
        assert(keys@.to_set().contains(k));
        let inst = match m.get(&k) {
            Some(i) => *i,
            None => {
                assert(false);
                return;
            },
        };
        let ghost acts_before = acts@;
        let ghost m_before = m@;
        let cleared = GraphAction::ClearLoop { serial: inst.serial };
        proof {
            assert(inst == m_before[k]);
            assert(keys@[j as int] == k);
            assert(m0.contains_key(k));
            assert(!acts_before.contains(cleared)) by {
                if acts_before.contains(cleared) {
                    if acts0.contains(cleared) {
                        assert(clears_one_of(m0, cleared));
                    } else {
                        let i = choose|i: int|
                            0 <= i < j && cleared == (GraphAction::ClearLoop { serial: m0[keys@[i]].serial });
                        assert(keys@.to_set().contains(keys@[i]));
                        assert(m0[keys@[i]].serial == m0[k].serial);
                        assert(keys@[i] == keys@[j as int]);
                    }
                }
            }
        }
        acts.push(cleared);
        m.insert(k, Instance { serial: inst.serial, rate: inst.rate, looping: false });
        proof {
            assert(inst.serial == m0[k].serial && inst.rate == m0[k].rate);
            assert(keys@.take(j + 1) =~= keys@.take(j as int).push(k));
            assert(m@.dom() =~= m0.dom());
            assert forall|k2: u64| m0.contains_key(k2) implies m@[k2] == if keys@.take(j + 1).contains(k2) {
                released(m0[k2])
            } else {
                m0[k2]
            } by {
                if k2 != k {
                    assert(keys@.take(j + 1).contains(k2) == keys@.take(j as int).contains(k2));
                } else {
                    assert(keys@.take(j + 1)[j as int] == k2);
                    assert(keys@.take(j + 1).contains(k2));
                }
            }
            assert(acts@ == acts_before.push(cleared));
        }
        j = j + 1;
        proof {
            assert forall|a: GraphAction| acts@.contains(a) <==> acts0.contains(a) || exists|i: int|
                0 <= i < j && a == (GraphAction::ClearLoop { serial: m0[keys@[i]].serial }) by {
                if acts@.contains(a) && !acts_before.contains(a) {
                    let p = acts@.index_of(a);
                    assert(p == acts_before.len());
                    assert(a == cleared);
                    assert(0 <= j - 1 < j && a == (GraphAction::ClearLoop { serial: m0[keys@[j - 1]].serial }));
                }
                if acts_before.contains(a) {
                    let p = acts_before.index_of(a);
                    assert(acts@[p] == a);
                }
                if exists|i: int| 0 <= i < j && a == (GraphAction::ClearLoop { serial: m0[keys@[i]].serial }) {
                    let i = choose|i: int| 0 <= i < j && a == (GraphAction::ClearLoop { serial: m0[keys@[i]].serial });
                    if i == j - 1 {
                        assert(acts@[acts@.len() - 1] == a);
                    } else {
                        assert(acts_before.contains(a));
                        let p = acts_before.index_of(a);
                        assert(acts@[p] == a);
                    }
                }
            }
        }
    }
    proof {
        assert(keys@.take(keys@.len() as int) =~= keys@);
        assert(m@ =~= released_all(m0));
        assert forall|a: GraphAction| acts@.contains(a) <==> acts0.contains(a) || clears_one_of(m0, a) by {
            if exists|i: int| 0 <= i < keys@.len() && a == (GraphAction::ClearLoop { serial: m0[keys@[i]].serial }) {
                let i = choose|i: int| 0 <= i < keys@.len() && a == (GraphAction::ClearLoop { serial: m0[keys@[i]].serial });
                assert(keys@.to_set().contains(keys@[i]));
                assert(m0.contains_key(keys@[i]));
            }
            if clears_one_of(m0, a) {
                let k = choose|k: u64| m0.contains_key(k) && a == (GraphAction::ClearLoop { serial: m0[k].serial });
                assert(keys@.to_set().contains(k));
                let i = keys@.index_of(k);
                assert(keys@[i] == k);
            }
        }
    }
}

fn keys_of(m: &HashMap<u64, Instance>) -> (r: Vec<u64>)
    ensures
        r@.to_set() == m@.dom(),
        r@.no_duplicates(),
{
    let mut r: Vec<u64> = Vec::new();
    for k in it: m.keys()
        invariant
            r@ == it.seq().take(it.index() as int).unref(),
            it.seq().unref().to_set() == m@.dom(),
            it.seq().unref().no_duplicates(),
            it.index() == it.seq().len() ==> r@.to_set() == m@.dom() && r@.no_duplicates(),
    {
        r.push(*k);
        assert(it.seq().take(it.seq().len() as int) =~= it.seq());
        assert(it.index() + 1 == it.seq().len() ==> r@ =~= it.seq().unref());
    }
    r
}

} // verus!
