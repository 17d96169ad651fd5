use vstd::prelude::*;

verus! {

/// Where one voice's sample stands.
#[derive(Debug, Clone, Copy, PartialEq, Eq, Structural)]
pub enum SampleStatus {
    /// Nothing has arrived yet.
    Pending,
    /// The raw bytes are in; they still need decoding.
    Fetched,
    /// A decoded sample exists: the voice can be triggered.
    Decoded,
    /// Fetching or decoding failed: the voice stays untriggerable.
    Failed,
}

/// Load status of every voice's sample, indexed by voice.
pub struct SampleStore {
    status: Vec<SampleStatus>,
}

/// Voices among the first `n` of `s` whose bytes have arrived.
pub open spec fn count_with_bytes(s: Seq<SampleStatus>, n: int) -> nat
    decreases n,
{
    if n <= 0 {
        0
    } else {
        count_with_bytes(s, n - 1) + if has_bytes(s[n - 1]) { 1nat } else { 0nat }
    }
}

/// The voice's bytes are present (decoded or not).
pub open spec fn has_bytes(st: SampleStatus) -> bool {
    st == SampleStatus::Fetched || st == SampleStatus::Decoded
}

/// The transition for a finished fetch: only a pending voice moves.
pub open spec fn after_fetch(st: SampleStatus) -> SampleStatus {
    if st == SampleStatus::Pending { SampleStatus::Fetched } else { st }
}

/// The transition for a finished decode: only fetched bytes become a sample.
pub open spec fn after_decode(st: SampleStatus) -> SampleStatus {
    if st == SampleStatus::Fetched { SampleStatus::Decoded } else { st }
}

/// The transition for a load error: a voice that has no sample yet fails for
/// good; a decoded sample is kept.
pub open spec fn after_failure(st: SampleStatus) -> SampleStatus {
    if st == SampleStatus::Decoded { st } else { SampleStatus::Failed }
}

proof fn lemma_count_bounded(s: Seq<SampleStatus>, n: int)
    requires
        0 <= n <= s.len(),
    ensures
        count_with_bytes(s, n) <= n,
    decreases n,
{
    if n > 0 {
        lemma_count_bounded(s, n - 1);
    }
}

impl SampleStore {
    /// Status of each voice, by index.
    pub closed spec fn view(&self) -> Seq<SampleStatus> {
        self.status@
    }

    /// A store for `n` voices, none loaded.
    pub fn new(n: usize) -> (r: SampleStore)
        ensures
            r@.len() == n,
            forall|i: int| 0 <= i < n ==> r@[i] == SampleStatus::Pending,
    {
        let mut status: Vec<SampleStatus> = Vec::new();
        let mut k: usize = 0;
        while k < n
            invariant
                k <= n,
                status@.len() == k,
                forall|i: int| 0 <= i < k ==> status@[i] == SampleStatus::Pending,
            decreases n - k,
        {
            status.push(SampleStatus::Pending);
            k = k + 1;
        }
        SampleStore { status }
    }

    /// Number of voices.
    pub fn len(&self) -> (r: usize)
        ensures
            r == self@.len(),
    {
        self.status.len()
    }

    /// Status of voice `voice`; an unknown voice reads as `Failed`.
    pub fn status(&self, voice: usize) -> (r: SampleStatus)
        ensures
            voice < self@.len() ==> r == self@[voice as int],
            voice >= self@.len() ==> r == SampleStatus::Failed,
    {
        if voice < self.status.len() {
            self.status[voice]
        } else {
            SampleStatus::Failed
        }
    }

    fn set(&mut self, voice: usize, st: SampleStatus)
        requires
            voice < old(self)@.len(),
        ensures
            final(self)@ == old(self)@.update(voice as int, st),
    {
        self.status.set(voice, st);
    }

    /// Records that the bytes of `voice` arrived. Unknown voices are ignored.
    pub fn fetched(&mut self, voice: usize)
        ensures
            voice < old(self)@.len() ==> final(self)@ == old(self)@.update(
                voice as int,
                after_fetch(old(self)@[voice as int]),
            ),
            voice >= old(self)@.len() ==> final(self)@ == old(self)@,
    {
        if voice < self.status.len() {
            let st = after_fetch_exec(self.status[voice]);
            self.set(voice, st);
        }
    }

    /// Records that the bytes of `voice` were decoded into a sample.
    pub fn decoded(&mut self, voice: usize)
        ensures
            voice < old(self)@.len() ==> final(self)@ == old(self)@.update(
                voice as int,
                after_decode(old(self)@[voice as int]),
            ),
            voice >= old(self)@.len() ==> final(self)@ == old(self)@,
    {
        if voice < self.status.len() {
            let st = if self.status[voice] == SampleStatus::Fetched {
                SampleStatus::Decoded
            } else {
                self.status[voice]
            };
            self.set(voice, st);
        }
    }

    /// Records a load error for `voice`. It is not retried.
    pub fn failed(&mut self, voice: usize)
        ensures
            voice < old(self)@.len() ==> final(self)@ == old(self)@.update(
                voice as int,
                after_failure(old(self)@[voice as int]),
            ),
            voice >= old(self)@.len() ==> final(self)@ == old(self)@,
    {
        if voice < self.status.len() {
            let st = if self.status[voice] == SampleStatus::Decoded {
                SampleStatus::Decoded
            } else {
                SampleStatus::Failed
            };
            self.set(voice, st);
        }
    }

    /// Whether `voice` has a decoded sample and so can be triggered.
    pub fn is_decoded(&self, voice: usize) -> (r: bool)
        ensures
            r == (voice < self@.len() && self@[voice as int] == SampleStatus::Decoded),
    {
        voice < self.status.len() && self.status[voice] == SampleStatus::Decoded
    }

    /// Every voice has its bytes: the pad may be started.
    pub fn all_fetched(&self) -> (r: bool)
        ensures
            r == forall|i: int| 0 <= i < self@.len() ==> has_bytes(#[trigger] self@[i]),
    {
        let mut k: usize = 0;
        while k < self.status.len()
            invariant
                k <= self.status@.len(),
                forall|i: int| 0 <= i < k ==> has_bytes(#[trigger] self.status@[i]),
            decreases self.status@.len() - k,
        {
            let st = self.status[k];
            if st != SampleStatus::Fetched && st != SampleStatus::Decoded {
                assert(!has_bytes(self@[k as int]));
                return false;
            }
            k = k + 1;
        }
        true
    }

    /// No voice is still waiting for its bytes: each has them or has failed.
    /// The pad may be started then; failed voices stay silent.
    pub fn all_settled(&self) -> (r: bool)
        ensures
            r == forall|i: int| 0 <= i < self@.len() ==> #[trigger] self@[i] != SampleStatus::Pending,
    {
        let mut k: usize = 0;
        while k < self.status.len()
            invariant
                k <= self.status@.len(),
                forall|i: int| 0 <= i < k ==> #[trigger] self.status@[i] != SampleStatus::Pending,
            decreases self.status@.len() - k,
        {
            if self.status[k] == SampleStatus::Pending {
                assert(self@[k as int] == SampleStatus::Pending);
                return false;
            }
            k = k + 1;
        }
        true
    }

    /// Every voice has a decoded sample.
    pub fn all_loaded(&self) -> (r: bool)
        ensures
            r == forall|i: int| 0 <= i < self@.len() ==> #[trigger] self@[i] == SampleStatus::Decoded,
    {
        let mut k: usize = 0;
        while k < self.status.len()
            invariant
                k <= self.status@.len(),
                forall|i: int| 0 <= i < k ==> #[trigger] self.status@[i] == SampleStatus::Decoded,
            decreases self.status@.len() - k,
        {
            if self.status[k] != SampleStatus::Decoded {
                assert(self@[k as int] != SampleStatus::Decoded);
                return false;
            }
            k = k + 1;
        }
        true
    }

    /// Share of voices whose bytes have arrived, in whole percent (rounded
    /// down); an empty store counts as complete.
    pub fn loaded_percent(&self) -> (r: u32)
        ensures
            self@.len() == 0 ==> r == 100,
            self@.len() > 0 ==> r == count_with_bytes(self@, self@.len() as int) * 100
                / self@.len(),
            r <= 100,
    {
        let n = self.status.len();
        if n == 0 {
            return 100;
        }
        let mut c: usize = 0;
        let mut k: usize = 0;
        while k < n
            invariant
                n == self.status@.len(),
                k <= n,
                c == count_with_bytes(self.status@, k as int),
                c <= k,
            decreases n - k,
        {
            proof {
                lemma_count_bounded(self.status@, k as int);
            }
            let st = self.status[k];
            if st == SampleStatus::Fetched || st == SampleStatus::Decoded {
                c = c + 1;
            }
            k = k + 1;
        }
        let pct = (c as u128) * 100 / (n as u128);
        proof {
            assert(c <= n);
            assert((c as int) * 100 / (n as int) <= 100) by (nonlinear_arith)
                requires c <= n, n > 0;
        }
        pct as u32
    }
}

fn after_fetch_exec(st: SampleStatus) -> (r: SampleStatus)
    ensures
        r == after_fetch(st),
{
    if st == SampleStatus::Pending {
        SampleStatus::Fetched
    } else {
        st
    }
}

} // verus!
