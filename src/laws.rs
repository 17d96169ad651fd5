use crate::engine::{released_all, Engine, GraphAction, TriggerError, TriggerEvent};
use crate::rate::Rate;
use vstd::prelude::*;

verus! {

/// The node serial an action addresses.
pub open spec fn serial_of(a: GraphAction) -> u64 {
    match a {
        GraphAction::Stop { serial } => serial,
        GraphAction::Start { serial, .. } => serial,
        GraphAction::ClearLoop { serial } => serial,
    }
}

/// `a` starts node `s` for the key `(voice, id)`.
pub open spec fn starts(a: GraphAction, voice: usize, id: u64, s: u64) -> bool {
    a matches GraphAction::Start { voice: v, trigger: t, serial, .. } && v == voice && t == id
        && serial == s
}

/// Some action of `h` starts node `s` for `(voice, id)`.
pub open spec fn started_in(h: Seq<GraphAction>, voice: usize, id: u64, s: u64) -> bool {
    exists|i: int| 0 <= i < h.len() && starts(#[trigger] h[i], voice, id, s)
}

/// Some action of `h` hard-stops node `s`.
pub open spec fn stopped_in(h: Seq<GraphAction>, s: u64) -> bool {
    exists|i: int| 0 <= i < h.len() && #[trigger] h[i] == (GraphAction::Stop { serial: s })
}

/// Nodes that the action history `h` started for `(voice, id)` and has not
/// hard-stopped: the nodes of that key that can still sound.
pub open spec fn live_nodes(h: Seq<GraphAction>, voice: usize, id: u64) -> Set<u64> {
    Set::new(|s: u64| started_in(h, voice, id, s) && !stopped_in(h, s))
}

/// The graph actions that an event's result carries (none when refused).
pub open spec fn actions_of(r: Result<Vec<GraphAction>, TriggerError>) -> Seq<GraphAction> {
    match r {
        Ok(acts) => acts@,
        Err(_) => Seq::empty(),
    }
}

/// The action history `h` agrees with engine `e` on `(voice, id)`: every
/// serial it names was handed out, and its live nodes for the key are
/// exactly the table's instance there, if any.
pub open spec fn history_matches(e: &Engine, h: Seq<GraphAction>, voice: usize, id: u64) -> bool {
    &&& forall|i: int| 0 <= i < h.len() ==> serial_of(#[trigger] h[i]) < e.next_serial()
    &&& live_nodes(h, voice, id) == if e.has_instance(voice as int, id) {
        set![e.table()[voice as int][id].serial]
    } else {
        Set::<u64>::empty()
    }
}

proof fn lemma_started_append(h: Seq<GraphAction>, a: Seq<GraphAction>, voice: usize, id: u64, s: u64)
    ensures
        started_in(h + a, voice, id, s) == (started_in(h, voice, id, s) || started_in(a, voice, id, s)),
{
    let ha = h + a;
    if started_in(ha, voice, id, s) {
        let i = choose|i: int| 0 <= i < ha.len() && starts(#[trigger] ha[i], voice, id, s);
        if i >= h.len() {
            assert(a[i - h.len()] == ha[i]);
        } else {
            assert(h[i] == ha[i]);
        }
    }
    if started_in(h, voice, id, s) {
        let i = choose|i: int| 0 <= i < h.len() && starts(#[trigger] h[i], voice, id, s);
        assert(ha[i] == h[i]);
    }
    if started_in(a, voice, id, s) {
        let i = choose|i: int| 0 <= i < a.len() && starts(#[trigger] a[i], voice, id, s);
        assert(ha[h.len() + i] == a[i]);
    }
}

proof fn lemma_stopped_append(h: Seq<GraphAction>, a: Seq<GraphAction>, s: u64)
    ensures
        stopped_in(h + a, s) == (stopped_in(h, s) || stopped_in(a, s)),
{
    let ha = h + a;
    if stopped_in(ha, s) {
        let i = choose|i: int| 0 <= i < ha.len() && #[trigger] ha[i] == (GraphAction::Stop { serial: s });
        if i >= h.len() {
            assert(a[i - h.len()] == ha[i]);
        } else {
            assert(h[i] == ha[i]);
        }
    }
    if stopped_in(h, s) {
        let i = choose|i: int| 0 <= i < h.len() && #[trigger] h[i] == (GraphAction::Stop { serial: s });
        assert(ha[i] == h[i]);
    }
    if stopped_in(a, s) {
        let i = choose|i: int| 0 <= i < a.len() && #[trigger] a[i] == (GraphAction::Stop { serial: s });
        assert(ha[h.len() + i] == a[i]);
    }
}

/// An engine with no instance at `(voice, id)` agrees with the empty history.
pub proof fn lemma_history_starts_empty(e: &Engine, voice: usize, id: u64)
    requires
        !e.has_instance(voice as int, id),
    ensures
        history_matches(e, Seq::empty(), voice, id),
{
    assert(live_nodes(Seq::empty(), voice, id) =~= Set::<u64>::empty());
}

/// Whatever sequence of presses and releases (of any key, and global
/// releases) the engine handles, each `(voice, id)` key has at most one
/// live playback instance: the table's entry, and nothing else that was
/// started for the key and not hard-stopped.
pub proof fn lemma_one_live_instance_per_key(
    pre: &Engine,
    post: &Engine,
    ev: TriggerEvent,
    r: Result<Vec<GraphAction>, TriggerError>,
    h: Seq<GraphAction>,
    voice: usize,
    id: u64,
)
    requires
        pre.wf(),
        Engine::handle_post(pre, post, ev, r),
        history_matches(pre, h, voice, id),
    ensures
        history_matches(post, h + actions_of(r), voice, id),
        live_nodes(h + actions_of(r), voice, id).len() <= 1,
{
    let a = actions_of(r);
    let h2 = h + a;
    let n = pre.next_serial();
    // Serials named by the new actions were handed out.
    assert forall|i: int| 0 <= i < h2.len() implies serial_of(#[trigger] h2[i]) < post.next_serial() by {
        if i < h.len() {
            assert(h2[i] == h[i]);
        } else {
            let x = a[i - h.len()];
            assert(h2[i] == x);
            match ev {
                TriggerEvent::Press { voice: v, id: k } => {
                    if r is Ok {
                        if pre.has_instance(v as int, k) {
                            assert(pre.table()[v as int][k].serial < n);
                        }
                    }
                },
                TriggerEvent::Release { voice: v, id: k } => {
                    if pre.has_instance(v as int, k) {
                        assert(pre.table()[v as int][k].serial < n);
                    }
                },
                TriggerEvent::ReleaseAll => {
                    assert(a.contains(x));
                    let u = choose|u: int| 0 <= u < pre.voices() && crate::engine::clears_one_of(pre.table()[u], x);
                    let k = choose|k: u64| pre.table()[u].contains_key(k) && x == (GraphAction::ClearLoop { serial: pre.table()[u][k].serial });
                    assert(pre.table()[u][k].serial < n);
                },
            }
        }
    }
    // Started and stopped nodes of the extended history.
    assert forall|s: u64| #![auto] started_in(h2, voice, id, s) == (started_in(h, voice, id, s) || started_in(a, voice, id, s))
        && stopped_in(h2, s) == (stopped_in(h, s) || stopped_in(a, s)) by {
        lemma_started_append(h, a, voice, id, s);
        lemma_stopped_append(h, a, s);
    }
    let expected = if post.has_instance(voice as int, id) {
        set![post.table()[voice as int][id].serial]
    } else {
        Set::<u64>::empty()
    };
    match ev {
        TriggerEvent::Press { voice: v, id: k } => {
            if r is Ok {
                let start = GraphAction::Start { voice: v, trigger: k, serial: n, rate: pre.current_rate() };
                assert forall|s: u64| #![auto] started_in(a, voice, id, s) == (v == voice && k == id && s == n) by {
                    if started_in(a, voice, id, s) {
                        let i = choose|i: int| 0 <= i < a.len() && starts(#[trigger] a[i], voice, id, s);
                    }
                    if v == voice && k == id && s == n {
                        assert(starts(a[a.len() - 1], voice, id, s));
                    }
                }
                assert forall|s: u64| #![auto] stopped_in(a, s) == (pre.has_instance(v as int, k) && s == pre.table()[v as int][k].serial) by {
                    if stopped_in(a, s) {
                        let i = choose|i: int| 0 <= i < a.len() && #[trigger] a[i] == (GraphAction::Stop { serial: s });
                    }
                    if pre.has_instance(v as int, k) && s == pre.table()[v as int][k].serial {
                        assert(a[0] == (GraphAction::Stop { serial: s }));
                    }
                }
                // A freshly handed-out serial appears nowhere in the history.
                assert(!started_in(h, voice, id, n)) by {
                    if started_in(h, voice, id, n) {
                        let i = choose|i: int| 0 <= i < h.len() && starts(#[trigger] h[i], voice, id, n);
                        assert(serial_of(h[i]) < n);
                    }
                }
                assert(!stopped_in(h, n)) by {
                    if stopped_in(h, n) {
                        let i = choose|i: int| 0 <= i < h.len() && #[trigger] h[i] == (GraphAction::Stop { serial: n });
                        assert(serial_of(h[i]) < n);
                    }
                }
                if v == voice && k == id {
                    assert(live_nodes(h2, voice, id) =~= expected) by {
                        assert forall|s: u64| live_nodes(h2, voice, id).contains(s) <==> expected.contains(s) by {
                            if pre.has_instance(v as int, k) {
                                assert(live_nodes(h, voice, id).contains(pre.table()[v as int][k].serial));
                                assert(pre.table()[v as int][k].serial < n);
                            }
                            if s != n && started_in(h, voice, id, s) && !stopped_in(h, s) {
                                assert(live_nodes(h, voice, id).contains(s));
                            }
                        }
                    }
                } else {
                    assert(live_nodes(h2, voice, id) =~= expected) by {
                        assert forall|s: u64| live_nodes(h2, voice, id).contains(s) <==> expected.contains(s) by {
                            assert(live_nodes(h, voice, id).contains(s) == (started_in(h, voice, id, s) && !stopped_in(h, s)));
                            if pre.has_instance(v as int, k) && pre.has_instance(voice as int, id) {
                                assert(pre.table()[v as int][k].serial != pre.table()[voice as int][id].serial);
                            }
                        }
                    }
                }
            } else {
                assert(a =~= Seq::<GraphAction>::empty());
                assert(h2 =~= h);
            }
        },
        TriggerEvent::Release { voice: v, id: k } => {
            assert forall|s: u64| #![auto] !started_in(a, voice, id, s) && !stopped_in(a, s) by {
                if started_in(a, voice, id, s) {
                    let i = choose|i: int| 0 <= i < a.len() && starts(#[trigger] a[i], voice, id, s);
                }
                if stopped_in(a, s) {
                    let i = choose|i: int| 0 <= i < a.len() && #[trigger] a[i] == (GraphAction::Stop { serial: s });
                }
            }
            assert(live_nodes(h2, voice, id) =~= live_nodes(h, voice, id));
            assert(expected =~= live_nodes(h, voice, id));
        },
        TriggerEvent::ReleaseAll => {
            assert forall|s: u64| #![auto] !started_in(a, voice, id, s) && !stopped_in(a, s) by {
                if started_in(a, voice, id, s) {
                    let i = choose|i: int| 0 <= i < a.len() && starts(#[trigger] a[i], voice, id, s);
                    assert(a.contains(a[i]));
                }
                if stopped_in(a, s) {
                    let i = choose|i: int| 0 <= i < a.len() && #[trigger] a[i] == (GraphAction::Stop { serial: s });
                    assert(a.contains(a[i]));
                }
            }
            assert(live_nodes(h2, voice, id) =~= live_nodes(h, voice, id));
            if 0 <= voice < pre.voices() {
                assert(post.table()[voice as int] == released_all(pre.table()[voice as int]));
            }
            assert(expected =~= live_nodes(h, voice, id));
        },
    }
    if post.has_instance(voice as int, id) {
        assert(set![post.table()[voice as int][id].serial].len() == 1);
    }
}

/// The actions of the first `n` results of a run, in order.
pub open spec fn run_actions(rs: Seq<Result<Vec<GraphAction>, TriggerError>>, n: int) -> Seq<GraphAction>
    decreases n,
{
    if n <= 0 {
        Seq::empty()
    } else {
        run_actions(rs, n - 1) + actions_of(rs[n - 1])
    }
}

/// `states[i + 1]` and `rs[i]` are what handling `evs[i]` on `states[i]`
/// gives, for every step, on well-formed engines.
pub open spec fn is_run(
    states: Seq<Engine>,
    evs: Seq<TriggerEvent>,
    rs: Seq<Result<Vec<GraphAction>, TriggerError>>,
) -> bool {
    &&& states.len() == evs.len() + 1
    &&& rs.len() == evs.len()
    &&& forall|i: int| 0 <= i < states.len() ==> (#[trigger] states[i]).wf()
    &&& forall|i: int|
        0 <= i < evs.len() ==> Engine::handle_post(&states[i], &states[i + 1], #[trigger] evs[i], rs[i])
}

/// Over a whole run of presses and releases that starts with no instance at
/// `(voice, id)`, that key never has more than one live playback instance:
/// after every step, the nodes started for it and not hard-stopped are at
/// most one, and they are the table's entry.
pub proof fn lemma_run_keeps_one_live_instance(
    states: Seq<Engine>,
    evs: Seq<TriggerEvent>,
    rs: Seq<Result<Vec<GraphAction>, TriggerError>>,
    voice: usize,
    id: u64,
)
    requires
        is_run(states, evs, rs),
        !states[0].has_instance(voice as int, id),
    ensures
        forall|n: int|
            #![trigger run_actions(rs, n)]
            0 <= n <= evs.len() ==> {
                &&& history_matches(&states[n], run_actions(rs, n), voice, id)
                &&& live_nodes(run_actions(rs, n), voice, id).len() <= 1
            },
{
    assert forall|n: int|
        #![trigger run_actions(rs, n)]
        0 <= n <= evs.len() implies {
        &&& history_matches(&states[n], run_actions(rs, n), voice, id)
        &&& live_nodes(run_actions(rs, n), voice, id).len() <= 1
    } by {
        lemma_run_prefix(states, evs, rs, voice, id, n);
    }
}

proof fn lemma_run_prefix(
    states: Seq<Engine>,
    evs: Seq<TriggerEvent>,
    rs: Seq<Result<Vec<GraphAction>, TriggerError>>,
    voice: usize,
    id: u64,
    n: int,
)
    requires
        is_run(states, evs, rs),
        !states[0].has_instance(voice as int, id),
        0 <= n <= evs.len(),
    ensures
        history_matches(&states[n], run_actions(rs, n), voice, id),
        live_nodes(run_actions(rs, n), voice, id).len() <= 1,
    decreases n,
{
    if n == 0 {
        lemma_history_starts_empty(&states[0], voice, id);
        assert(live_nodes(Seq::empty(), voice, id) =~= Set::<u64>::empty());
    } else {
        lemma_run_prefix(states, evs, rs, voice, id, n - 1);
        assert(states[n - 1].wf());
        assert(Engine::handle_post(&states[n - 1], &states[n], evs[n - 1], rs[n - 1]));
        lemma_one_live_instance_per_key(
            &states[n - 1],
            &states[n],
            evs[n - 1],
            rs[n - 1],
            run_actions(rs, n - 1),
            voice,
            id,
        );
    }
}

/// Triggering the same key twice in a row: the second trigger hard-stops
/// the instance that the first one started, before it starts a fresh one.
pub proof fn lemma_retrigger_stops_first(
    e0: &Engine,
    e1: &Engine,
    e2: &Engine,
    voice: usize,
    id: u64,
    r1: Result<Vec<GraphAction>, TriggerError>,
    r2: Result<Vec<GraphAction>, TriggerError>,
)
    requires
        e0.wf(),
        Engine::trigger_post(e0, e1, voice, id, r1),
        Engine::trigger_post(e1, e2, voice, id, r2),
        r1 is Ok,
        r2 is Ok,
    ensures
        actions_of(r1).last() == (GraphAction::Start {
            voice,
            trigger: id,
            serial: e0.next_serial(),
            rate: e0.current_rate(),
        }),
        actions_of(r2) == seq![
            GraphAction::Stop { serial: e0.next_serial() },
            GraphAction::Start {
                voice,
                trigger: id,
                serial: (e0.next_serial() + 1) as u64,
                rate: e0.current_rate(),
            },
        ],
        e2.table()[voice as int][id].serial != e0.next_serial(),
{
    assert(e1.has_instance(voice as int, id));
}

/// Two different identifiers triggered on one voice give two instances of
/// that voice, live at the same time, on distinct nodes.
pub proof fn lemma_distinct_ids_overlap(
    e0: &Engine,
    e1: &Engine,
    e2: &Engine,
    voice: usize,
    a: u64,
    b: u64,
    r1: Result<Vec<GraphAction>, TriggerError>,
    r2: Result<Vec<GraphAction>, TriggerError>,
)
    requires
        e0.wf(),
        a != b,
        Engine::trigger_post(e0, e1, voice, a, r1),
        Engine::trigger_post(e1, e2, voice, b, r2),
        r1 is Ok,
        r2 is Ok,
    ensures
        e2.has_instance(voice as int, a),
        e2.has_instance(voice as int, b),
        e2.table()[voice as int][a].looping,
        e2.table()[voice as int][b].looping,
        e2.table()[voice as int][a].serial != e2.table()[voice as int][b].serial,
{
}

/// Releasing everything clears the loop flag of every live instance and
/// keeps the table's membership as it was.
pub proof fn lemma_release_all_keeps_members(
    pre: &Engine,
    post: &Engine,
    acts: Seq<GraphAction>,
    voice: int,
    id: u64,
)
    requires
        pre.wf(),
        Engine::release_all_post(pre, post, acts),
    ensures
        post.has_instance(voice, id) == pre.has_instance(voice, id),
        post.has_instance(voice, id) ==> {
            &&& !post.table()[voice][id].looping
            &&& post.table()[voice][id].serial == pre.table()[voice][id].serial
            &&& post.table()[voice][id].rate == pre.table()[voice][id].rate
        },
        pre.has_instance(voice, id) ==> acts.contains(
            GraphAction::ClearLoop { serial: pre.table()[voice][id].serial },
        ),
{
    if 0 <= voice < pre.voices() {
        assert(post.table()[voice] == released_all(pre.table()[voice]));
    }
    if pre.has_instance(voice, id) {
        let x = GraphAction::ClearLoop { serial: pre.table()[voice][id].serial };
        assert(crate::engine::clears_one_of(pre.table()[voice], x));
    }
}

/// A speed change reaches only instances created after it: the next
/// trigger's instance plays at the new rate, and an instance that was live
/// before keeps its rate.
pub proof fn lemma_speed_applies_to_new_instances(
    e0: &Engine,
    e1: &Engine,
    e2: &Engine,
    rate: Rate,
    voice: usize,
    id: u64,
    r: Result<Vec<GraphAction>, TriggerError>,
    other_voice: int,
    other_id: u64,
)
    requires
        e0.wf(),
        rate.wf(),
        Engine::speed_set(e0, e1, rate),
        Engine::trigger_post(e1, e2, voice, id, r),
        r is Ok,
        e0.has_instance(other_voice, other_id),
        other_voice != voice || other_id != id,
    ensures
        e2.table()[voice as int][id].rate == rate,
        actions_of(r).last() == (GraphAction::Start {
            voice,
            trigger: id,
            serial: e0.next_serial(),
            rate,
        }),
        e2.has_instance(other_voice, other_id),
        e2.table()[other_voice][other_id].rate == e0.table()[other_voice][other_id].rate,
{
}

} // verus!


