use sample_pad::{clamp_bpm, voices, Rate, SampleStatus, SampleStore, MAX_BPM, MIN_BPM, VOICE_COUNT};

#[test]
fn catalog_indices_match_positions() {
    let vs = voices();
    assert_eq!(vs.len(), VOICE_COUNT);
    for (i, v) in vs.iter().enumerate() {
        assert_eq!(v.index, i);
        assert!(!v.is_playing);
    }
    assert_eq!(vs[0].name, "JOY");
    assert_eq!(vs[5].filename, "sounds/jovijovi_jovi.mp3");
}

#[test]
fn store_lifecycle() {
    let mut s = SampleStore::new(3);
    assert_eq!(s.len(), 3);
    assert_eq!(s.loaded_percent(), 0);
    s.decoded(0);
    assert_eq!(s.status(0), SampleStatus::Pending);
    s.fetched(0);
    assert_eq!(s.loaded_percent(), 33);
    s.decoded(0);
    assert!(s.is_decoded(0));
    s.fetched(1);
    s.fetched(2);
    assert!(s.all_fetched());
    assert!(!s.all_loaded());
    assert_eq!(s.loaded_percent(), 100);
    s.decoded(1);
    s.decoded(2);
    assert!(s.all_loaded());
}

#[test]
fn store_failure_is_permanent() {
    let mut s = SampleStore::new(2);
    s.failed(1);
    s.fetched(1);
    s.decoded(1);
    assert_eq!(s.status(1), SampleStatus::Failed);
    assert!(!s.all_fetched());
    s.fetched(0);
    assert_eq!(s.loaded_percent(), 50);
}

#[test]
fn store_failure_keeps_decoded_sample() {
    let mut s = SampleStore::new(1);
    s.fetched(0);
    s.decoded(0);
    s.failed(0);
    assert_eq!(s.status(0), SampleStatus::Decoded);
}

#[test]
fn empty_store_is_complete() {
    let s = SampleStore::new(0);
    assert_eq!(s.loaded_percent(), 100);
    assert!(s.all_loaded());
}

#[test]
fn bpm_is_clamped_and_scaled() {
    assert_eq!(clamp_bpm(30), MIN_BPM);
    assert_eq!(clamp_bpm(500), MAX_BPM);
    assert_eq!(clamp_bpm(121), 121);
    assert_eq!(Rate::for_bpm(240), Rate { num: 180, den: 120 });
    assert_eq!(Rate::for_bpm(0), Rate { num: 60, den: 120 });
    assert_eq!(Rate::for_bpm(120), Rate { num: 120, den: 120 });
    assert_eq!(Rate::natural(), Rate { num: 1, den: 1 });
}

#[test]
fn store_settles_when_every_voice_answered() {
    let mut s = SampleStore::new(2);
    assert!(!s.all_settled());
    s.fetched(0);
    assert!(!s.all_settled());
    s.failed(1);
    assert!(s.all_settled());
    assert!(!s.all_fetched());
}
