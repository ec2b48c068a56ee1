use voice_gate::vad::{GateState, VadGate};

fn zero_chunk() -> Vec<i16> {
    vec![0i16; 1600]
}

fn constant_chunk(value: i16) -> Vec<i16> {
    vec![value; 1600]
}

#[test]
fn rms_of_all_zero_chunk_is_zero() {
    let gate = VadGate::new();
    assert_eq!(gate.calculate_rms(&zero_chunk()), 0);
}

#[test]
fn rms_of_empty_chunk_is_zero() {
    let gate = VadGate::new();
    assert_eq!(gate.calculate_rms(&Vec::new()), 0);
}

#[test]
fn rms_of_constant_chunk_is_that_value() {
    let gate = VadGate::new();
    assert_eq!(gate.calculate_rms(&constant_chunk(150)), 150);
    assert_eq!(gate.calculate_rms(&constant_chunk(70)), 70);
    assert_eq!(gate.calculate_rms(&constant_chunk(-100)), 100);
}

#[test]
fn rms_reads_every_tenth_sample_only() {
    // Samples at indices 0, 10, 20, ... are 100; everything else is loud.
    // A strided RMS sees only the quiet samples.
    let mut chunk = vec![32767i16; 1600];
    let mut i = 0;
    while i < 1600 {
        chunk[i] = 100;
        i += 10;
    }
    let gate = VadGate::new();
    assert_eq!(gate.calculate_rms(&chunk), 100);
}

#[test]
fn rms_is_deterministic_across_calls() {
    let gate = VadGate::new();
    let chunk = constant_chunk(123);
    let first = gate.calculate_rms(&chunk);
    let _ = gate.calculate_rms(&constant_chunk(9000));
    let second = gate.calculate_rms(&chunk);
    assert_eq!(first, second);
}

#[test]
fn silence_never_triggers_and_preroll_stays_bounded() {
    // Fifty all-zero chunks: the voice-activity gate stays Idle, emits nothing, and the
    // pre-roll FIFO ends up holding exactly the last three chunks.
    let mut gate = VadGate::new();
    for i in 0..50u64 {
        let out = gate.process(zero_chunk(), i * 100);
        assert!(out.is_empty());
        assert_eq!(gate.current_state(), GateState::Idle);
        assert!(gate.preroll_len() <= 3);
    }
    assert_eq!(gate.preroll_len(), 3);
}

#[test]
fn trigger_flushes_preroll_then_hysteresis_then_hangover() {
    let mut gate = VadGate::new();
    // Silence first: the pre-roll fills up with the most recent chunks.
    let mut t: u64 = 0;
    for _ in 0..50 {
        let out = gate.process(zero_chunk(), t);
        assert!(out.is_empty());
        t += 100;
    }
    // One loud chunk (RMS 150 > 100): pre-roll (three zero chunks) + itself.
    let out = gate.process(constant_chunk(150), t);
    t += 100;
    assert_eq!(gate.current_state(), GateState::Speech);
    assert_eq!(out.len(), 4);
    assert_eq!(out[0], zero_chunk());
    assert_eq!(out[1], zero_chunk());
    assert_eq!(out[2], zero_chunk());
    assert_eq!(out[3], constant_chunk(150));
    assert_eq!(gate.preroll_len(), 0);
    // RMS 70 lies between the thresholds (> 50): speech continues.
    for _ in 0..3 {
        let out = gate.process(constant_chunk(70), t);
        t += 100;
        assert_eq!(gate.current_state(), GateState::Speech);
        assert_eq!(out.len(), 1);
        assert_eq!(out[0], constant_chunk(70));
    }
    // RMS 10 < 50: hangover starts; chunks keep flowing while the elapsed
    // time is within 500 ms, then the first chunk past it is swallowed.
    let hangover_entry = t;
    let out = gate.process(constant_chunk(10), t);
    assert_eq!(gate.current_state(), GateState::Hangover);
    assert_eq!(out.len(), 1);
    t += 100;
    while t <= hangover_entry + 500 {
        let out = gate.process(constant_chunk(10), t);
        assert_eq!(gate.current_state(), GateState::Hangover);
        assert_eq!(out.len(), 1);
        t += 100;
    }
    let out = gate.process(constant_chunk(10), hangover_entry + 600);
    assert_eq!(gate.current_state(), GateState::Idle);
    assert!(out.is_empty());
    assert_eq!(gate.preroll_len(), 1);
}

#[test]
fn hangover_boundary_is_strict() {
    // Enter Hangover at t = 0; a quiet chunk at exactly t = 500 is still
    // emitted, the one at t = 501 is not (it seeds the new pre-roll).
    let mut gate = VadGate::new();
    let out = gate.process(constant_chunk(150), 0);
    assert_eq!(out.len(), 1);
    let out = gate.process(constant_chunk(10), 0);
    assert_eq!(gate.current_state(), GateState::Hangover);
    assert_eq!(out.len(), 1);
    let out = gate.process(constant_chunk(10), 500);
    assert_eq!(gate.current_state(), GateState::Hangover);
    assert_eq!(out.len(), 1);
    let out = gate.process(constant_chunk(10), 501);
    assert_eq!(gate.current_state(), GateState::Idle);
    assert!(out.is_empty());
    assert_eq!(gate.preroll_len(), 1);
}

#[test]
fn hangover_returns_to_speech_on_loud_chunk() {
    let mut gate = VadGate::new();
    let _ = gate.process(constant_chunk(150), 0);
    let _ = gate.process(constant_chunk(10), 0);
    assert_eq!(gate.current_state(), GateState::Hangover);
    let out = gate.process(constant_chunk(200), 400);
    assert_eq!(gate.current_state(), GateState::Speech);
    assert_eq!(out.len(), 1);
    assert_eq!(out[0], constant_chunk(200));
}

#[test]
fn start_threshold_is_strict() {
    // RMS exactly 100 does not trigger; 101 does.
    let mut gate = VadGate::new();
    let out = gate.process(constant_chunk(100), 0);
    assert_eq!(gate.current_state(), GateState::Idle);
    assert!(out.is_empty());
    let out = gate.process(constant_chunk(101), 100);
    assert_eq!(gate.current_state(), GateState::Speech);
    assert_eq!(out.len(), 2);
}

#[test]
fn refeeding_after_reset_gives_identical_output() {
    // The same chunk sequence with the same arrival times yields the same
    // emitted chunks from a freshly reset gate.
    let chunks: Vec<(i16, u64)> = vec![
        (0, 0),
        (150, 100),
        (70, 200),
        (10, 300),
        (10, 900),
        (0, 1000),
        (130, 1100),
    ];
    let run = |gate: &mut VadGate| -> Vec<Vec<i16>> {
        let mut all = Vec::new();
        for &(v, t) in &chunks {
            all.extend(gate.process(constant_chunk(v), t));
        }
        all
    };
    let mut g1 = VadGate::new();
    let first = run(&mut g1);
    g1.reset();
    let again = run(&mut g1);
    assert_eq!(first, again);
    let mut g2 = VadGate::new();
    let fresh = run(&mut g2);
    assert_eq!(first, fresh);
}

#[test]
fn reset_clears_state_and_preroll() {
    let mut gate = VadGate::new();
    let _ = gate.process(constant_chunk(150), 0);
    assert_eq!(gate.current_state(), GateState::Speech);
    gate.reset();
    assert_eq!(gate.current_state(), GateState::Idle);
    assert_eq!(gate.preroll_len(), 0);
}

#[test]
fn deep_preroll_configuration_keeps_twenty_chunks() {
    let mut gate = VadGate::new_with_config(20);
    for i in 0..40u64 {
        let out = gate.process(zero_chunk(), i * 100);
        assert!(out.is_empty());
        assert!(gate.preroll_len() <= 20);
    }
    assert_eq!(gate.preroll_len(), 20);
    let out = gate.process(constant_chunk(150), 4000);
    assert_eq!(out.len(), 21);
}

#[test]
fn last_rms_tracks_the_latest_chunk() {
    let mut gate = VadGate::new();
    let _ = gate.process(constant_chunk(42), 0);
    assert_eq!(gate.last_rms, 42);
    let _ = gate.process(zero_chunk(), 100);
    assert_eq!(gate.last_rms, 0);
}

#[test]
fn preroll_holds_the_most_recent_chunks() {
    // Quiet chunks with distinct values: the trigger flushes exactly the
    // last three of them, oldest first.
    let mut gate = VadGate::new();
    for (i, v) in [1i16, 2, 3, 4, 5].iter().enumerate() {
        let out = gate.process(constant_chunk(*v), i as u64 * 100);
        assert!(out.is_empty());
    }
    let out = gate.process(constant_chunk(150), 500);
    assert_eq!(out.len(), 4);
    assert_eq!(out[0], constant_chunk(3));
    assert_eq!(out[1], constant_chunk(4));
    assert_eq!(out[2], constant_chunk(5));
    assert_eq!(out[3], constant_chunk(150));
}
