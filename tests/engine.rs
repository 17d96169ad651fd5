use sample_pad::{Engine, GraphAction, Instance, Rate, SampleStatus, TriggerError, TriggerEvent};

fn ready_engine(voices: usize) -> Engine {
    let mut e = Engine::new(voices);
    for v in 0..voices {
        e.sample_fetched(v);
        e.sample_decoded(v);
    }
    assert!(e.init());
    e
}

fn start_serial(acts: &[GraphAction]) -> u64 {
    match acts.last() {
        Some(GraphAction::Start { serial, .. }) => *serial,
        other => panic!("expected a start, got {:?}", other),
    }
}

#[test]
fn trigger_before_init_is_refused() {
    let mut e = Engine::new(2);
    e.sample_fetched(0);
    e.sample_decoded(0);
    assert_eq!(e.trigger(0, 1), Err(TriggerError::NotInitialized));
    assert!(!e.is_sounding(0));
}

#[test]
fn trigger_unknown_voice_is_refused() {
    let mut e = ready_engine(2);
    assert_eq!(e.trigger(2, 1), Err(TriggerError::UnknownVoice));
}

#[test]
fn trigger_without_sample_is_refused() {
    let mut e = Engine::new(2);
    e.init();
    e.sample_fetched(1);
    assert_eq!(e.trigger(1, 7), Err(TriggerError::SampleMissing));
    e.sample_failed(0);
    assert_eq!(e.trigger(0, 7), Err(TriggerError::SampleMissing));
    assert_eq!(e.instance(1, 7), None);
}

#[test]
fn init_reports_first_call_only() {
    let mut e = Engine::new(1);
    assert!(!e.is_initialized());
    assert!(e.init());
    assert!(!e.init());
    assert!(e.is_initialized());
}

#[test]
fn first_trigger_starts_looping_instance() {
    let mut e = ready_engine(3);
    let acts = e.trigger(1, 42).unwrap();
    assert_eq!(
        acts,
        vec![GraphAction::Start { voice: 1, trigger: 42, serial: 0, rate: Rate { num: 1, den: 1 } }]
    );
    assert_eq!(
        e.instance(1, 42),
        Some(Instance { serial: 0, rate: Rate { num: 1, den: 1 }, looping: true })
    );
    assert!(e.is_sounding(1));
    assert!(!e.is_sounding(0));
}

#[test]
fn retrigger_stops_first_before_starting_second() {
    let mut e = ready_engine(1);
    let first = e.trigger(0, 5).unwrap();
    let s0 = start_serial(&first);
    let second = e.trigger(0, 5).unwrap();
    assert_eq!(second.len(), 2);
    assert_eq!(second[0], GraphAction::Stop { serial: s0 });
    match second[1] {
        GraphAction::Start { voice: 0, trigger: 5, serial, .. } => assert_ne!(serial, s0),
        other => panic!("expected a start, got {:?}", other),
    }
    assert_eq!(e.instance(0, 5).unwrap().serial, start_serial(&second));
}

#[test]
fn single_key_sequence_keeps_one_live_instance() {
    let mut e = ready_engine(1);
    let mut live: Vec<u64> = Vec::new();
    let ops = [true, true, false, true, false, false, true, true];
    for press in ops {
        let acts = if press { e.trigger(0, 9).unwrap() } else { e.release(0, 9) };
        for a in &acts {
            match a {
                GraphAction::Start { serial, .. } => live.push(*serial),
                GraphAction::Stop { serial } => live.retain(|s| s != serial),
                GraphAction::ClearLoop { .. } => {}
            }
        }
        assert!(live.len() <= 1);
        assert_eq!(live.first().copied(), e.instance(0, 9).map(|i| i.serial));
    }
}

#[test]
fn different_ids_on_one_voice_overlap() {
    let mut e = ready_engine(4);
    let a = e.trigger(2, 100).unwrap();
    let b = e.trigger(2, 200).unwrap();
    assert_eq!(a.len(), 1);
    assert_eq!(b.len(), 1);
    let ia = e.instance(2, 100).unwrap();
    let ib = e.instance(2, 200).unwrap();
    assert!(ia.looping && ib.looping);
    assert_ne!(ia.serial, ib.serial);
}

#[test]
fn same_id_on_two_voices_is_two_keys() {
    let mut e = ready_engine(2);
    e.trigger(0, 3).unwrap();
    let acts = e.trigger(1, 3).unwrap();
    assert_eq!(acts.len(), 1);
    assert!(e.instance(0, 3).is_some());
    assert!(e.instance(1, 3).is_some());
}

#[test]
fn release_unknown_key_is_noop() {
    let mut e = ready_engine(2);
    e.trigger(0, 1).unwrap();
    assert!(e.release(0, 2).is_empty());
    assert!(e.release(1, 1).is_empty());
    assert!(e.release(9, 1).is_empty());
    assert!(e.instance(0, 1).unwrap().looping);
}

#[test]
fn release_clears_loop_and_keeps_entry() {
    let mut e = ready_engine(1);
    let s = start_serial(&e.trigger(0, 1).unwrap());
    assert_eq!(e.release(0, 1), vec![GraphAction::ClearLoop { serial: s }]);
    let i = e.instance(0, 1).unwrap();
    assert!(!i.looping);
    assert_eq!(i.serial, s);
    assert!(e.is_sounding(0));
}

#[test]
fn release_all_clears_every_loop_flag() {
    let mut e = ready_engine(3);
    let s1 = start_serial(&e.trigger(0, 1).unwrap());
    let s2 = start_serial(&e.trigger(0, 2).unwrap());
    let s3 = start_serial(&e.trigger(2, 1).unwrap());
    let mut acts = e.release_all();
    acts.sort_by_key(|a| match a {
        GraphAction::ClearLoop { serial } => *serial,
        _ => u64::MAX,
    });
    assert_eq!(
        acts,
        vec![
            GraphAction::ClearLoop { serial: s1 },
            GraphAction::ClearLoop { serial: s2 },
            GraphAction::ClearLoop { serial: s3 },
        ]
    );
    for (v, id) in [(0, 1), (0, 2), (2, 1)] {
        let i = e.instance(v, id).unwrap();
        assert!(!i.looping);
    }
    assert!(e.instance(1, 1).is_none());
    assert!(e.is_sounding(0) && e.is_sounding(2) && !e.is_sounding(1));
}

#[test]
fn release_all_on_empty_table_does_nothing() {
    let mut e = ready_engine(2);
    assert!(e.release_all().is_empty());
}

#[test]
fn speed_applies_to_new_instances_only() {
    let mut e = ready_engine(2);
    e.trigger(1, 7).unwrap();
    e.set_speed(Rate { num: 2, den: 1 });
    let acts = e.trigger(0, 8).unwrap();
    assert_eq!(
        acts,
        vec![GraphAction::Start { voice: 0, trigger: 8, serial: 1, rate: Rate { num: 2, den: 1 } }]
    );
    assert_eq!(e.instance(0, 8).unwrap().rate, Rate { num: 2, den: 1 });
    assert_eq!(e.instance(1, 7).unwrap().rate, Rate { num: 1, den: 1 });
    assert_eq!(e.rate(), Rate { num: 2, den: 1 });
}

#[test]
fn ended_removes_only_matching_node() {
    let mut e = ready_engine(1);
    let s0 = start_serial(&e.trigger(0, 1).unwrap());
    let s1 = start_serial(&e.trigger(0, 1).unwrap());
    assert!(!e.ended(0, 1, s0));
    assert!(e.is_sounding(0));
    assert!(e.ended(0, 1, s1));
    assert!(!e.is_sounding(0));
    assert!(!e.ended(0, 1, s1));
}

#[test]
fn handle_dispatches_by_event() {
    let mut e = ready_engine(2);
    let acts = e.handle(TriggerEvent::Press { voice: 1, id: 4 }).unwrap();
    let s = start_serial(&acts);
    assert_eq!(
        e.handle(TriggerEvent::Release { voice: 1, id: 4 }).unwrap(),
        vec![GraphAction::ClearLoop { serial: s }]
    );
    assert_eq!(
        e.handle(TriggerEvent::ReleaseAll).unwrap(),
        vec![GraphAction::ClearLoop { serial: s }]
    );
    assert_eq!(
        e.handle(TriggerEvent::Press { voice: 5, id: 4 }),
        Err(TriggerError::UnknownVoice)
    );
}

#[test]
fn end_to_end_four_voices() {
    let mut e = Engine::new(4);
    assert!(!e.all_loaded());
    for v in 0..4 {
        e.sample_fetched(v);
    }
    assert!(e.all_fetched());
    assert!(!e.all_loaded());
    assert!(e.init());
    for v in 0..4 {
        e.sample_decoded(v);
    }
    assert!(e.all_loaded());
    let m1 = sample_pad::MOUSE_ID_BASE + 1;
    let s = start_serial(&e.trigger(0, m1).unwrap());
    assert!(e.is_sounding(0));
    e.release(0, m1);
    assert!(e.is_sounding(0));
    assert!(e.ended(0, m1, s));
    assert!(!e.is_sounding(0));
}

#[test]
fn engine_sample_status_reads() {
    let mut e = Engine::new(2);
    assert_eq!(e.voice_count(), 2);
    assert_eq!(e.sample_status(0), SampleStatus::Pending);
    e.sample_fetched(0);
    assert_eq!(e.sample_status(0), SampleStatus::Fetched);
    assert_eq!(e.loaded_percent(), 50);
    assert_eq!(e.sample_status(5), SampleStatus::Failed);
}
