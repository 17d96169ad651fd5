use sample_pad::{
    energy, Multiplexer, TickPlan, TriggerEvent, Visualizer, ENERGY_THRESHOLD, MOUSE_ID_BASE,
    TRAIL_SHIFT_PX, WINDOW_LEN,
};

#[test]
fn mouse_presses_get_fresh_ids_per_voice() {
    let mut m = Multiplexer::new(2);
    assert_eq!(m.mouse_down(0), TriggerEvent::Press { voice: 0, id: MOUSE_ID_BASE });
    assert_eq!(m.mouse_down(0), TriggerEvent::Press { voice: 0, id: MOUSE_ID_BASE + 1 });
    assert_eq!(m.mouse_down(1), TriggerEvent::Press { voice: 1, id: MOUSE_ID_BASE });
    assert_eq!(m.mouse_down(7), TriggerEvent::Press { voice: 7, id: MOUSE_ID_BASE });
}

#[test]
fn touches_map_to_matching_press_and_release() {
    let m = Multiplexer::new(3);
    let starts = m.touch_start(2, &vec![0, 5, -1]);
    assert_eq!(
        starts,
        vec![
            TriggerEvent::Press { voice: 2, id: 0 },
            TriggerEvent::Press { voice: 2, id: 5 },
            TriggerEvent::Press { voice: 2, id: 0xFFFF_FFFF },
        ]
    );
    let ends = m.touch_end(2, &vec![5]);
    assert_eq!(ends, vec![TriggerEvent::Release { voice: 2, id: 5 }]);
    assert!(m.touch_start(0, &vec![]).is_empty());
}

#[test]
fn pointer_up_releases_everything() {
    let m = Multiplexer::new(1);
    assert_eq!(m.pointer_up(), TriggerEvent::ReleaseAll);
}

#[test]
fn energy_is_sum_of_squares() {
    assert_eq!(energy(&vec![3, -4]), 25);
    assert_eq!(energy(&vec![]), 0);
    assert_eq!(energy(&vec![i16::MIN, i16::MAX]), 32768 * 32768 + 32767 * 32767);
}

#[test]
fn silent_window_never_strokes_but_decays() {
    let mut v = Visualizer::new();
    let silent = vec![0i16; WINDOW_LEN];
    for _ in 0..20 {
        let p = v.tick(&silent);
        assert!(p.decay);
        assert_eq!(p.shift_px, TRAIL_SHIFT_PX);
        assert!(!p.stroke);
    }
}

#[test]
fn loud_window_strokes_on_even_ticks_only() {
    let mut v = Visualizer::new();
    let loud = vec![i16::MAX; WINDOW_LEN];
    assert_eq!(v.tick(&loud), TickPlan { decay: true, shift_px: TRAIL_SHIFT_PX, wave_tick: true, stroke: true });
    assert_eq!(v.tick(&loud), TickPlan { decay: true, shift_px: TRAIL_SHIFT_PX, wave_tick: false, stroke: false });
    assert!(v.tick(&loud).stroke);
}

#[test]
fn stroke_needs_energy_above_threshold() {
    // 4 * 7327^2 = 214_739_716 is above the threshold; 4 * 7326^2 = 214_681_104 is not.
    let above = vec![7327i16; 4];
    let below = vec![7326i16; 4];
    assert!(energy(&above) > ENERGY_THRESHOLD);
    assert!(energy(&below) <= ENERGY_THRESHOLD);
    let mut v = Visualizer::new();
    assert!(!v.tick(&below).stroke);
    v.tick(&below);
    assert!(v.tick(&above).stroke);
}
