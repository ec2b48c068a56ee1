use voice_gate::devices::device_list;
use voice_gate::pcm::{encode_pcm_le, sample_frames};
use voice_gate::queue::{capture_queue, push_and_monitor, OverflowMonitor, PushVerdict, SAMPLE_QUEUE_CAPACITY};
use voice_gate::rate::{effective_sample_rate, parse_sample_rate};
use voice_gate::speaker::SpeakerInput;
use voice_gate::worker::CaptureWorker;
use voice_gate::AudioError;

#[test]
fn pcm_encoding_is_little_endian() {
    let bytes = encode_pcm_le(&vec![0x1234i16, -1, 0, -32768]);
    assert_eq!(
        bytes,
        vec![0x34, 0x12, 0xff, 0xff, 0x00, 0x00, 0x00, 0x80]
    );
}

#[test]
fn sample_frames_discard_the_remainder() {
    let bytes: Vec<u8> = vec![1, 2, 3, 4, 5, 6, 7, 8, 9];
    let frames = sample_frames(&bytes);
    assert_eq!(frames.len(), 2);
    assert_eq!(frames[0], vec![1, 2, 3, 4]);
    assert_eq!(frames[1], vec![5, 6, 7, 8]);

    assert!(sample_frames(&vec![1, 2, 3]).is_empty());
}

#[test]
fn queue_hands_samples_out_in_order() {
    let (mut prod, mut cons) = capture_queue();
    let mut monitor = OverflowMonitor::new();
    let (stored, _) = push_and_monitor(&mut prod, &mut monitor, &vec![10i16, 20, 30, 40, 50]);
    assert_eq!(stored, 5);
    let first = cons.drain(3);
    assert_eq!(first, vec![10, 20, 30]);
    let rest = cons.drain(10);
    assert_eq!(rest, vec![40, 50]);
    assert!(cons.drain(4).is_empty());
}

#[test]
fn queue_push_drops_the_newest_on_overflow() {
    // Two samples more than the capacity: the push stores what fits and
    // drops the newest remainder, the declared policy.
    let (mut prod, mut cons) = capture_queue();
    let mut monitor = OverflowMonitor::new();
    let over: Vec<i16> = (0..SAMPLE_QUEUE_CAPACITY as i32 + 2).map(|i| (i % 1000) as i16).collect();
    let (stored, _) = push_and_monitor(&mut prod, &mut monitor, &over);
    assert_eq!(stored, SAMPLE_QUEUE_CAPACITY);
    let drained = cons.drain(SAMPLE_QUEUE_CAPACITY + 8);
    assert_eq!(drained.len(), SAMPLE_QUEUE_CAPACITY);
    assert_eq!(drained[0], 0);
    assert_eq!(
        drained[SAMPLE_QUEUE_CAPACITY - 1],
        ((SAMPLE_QUEUE_CAPACITY as i32 - 1) % 1000) as i16
    );
}

#[test]
fn overflow_policy_trips_exactly_once_under_a_fast_producer() {
    // A producer pushing into a full queue that nobody drains: the monitor
    // warns once at the 25th consecutive shortfall and turns fatal exactly
    // at the 51st, not earlier.
    let (mut prod, _cons) = capture_queue();
    let mut monitor = OverflowMonitor::new();
    let (stored, _) = push_and_monitor(&mut prod, &mut monitor, &vec![0i16; SAMPLE_QUEUE_CAPACITY]);
    assert_eq!(stored, SAMPLE_QUEUE_CAPACITY);
    let batch = vec![1i16; 4];
    for round in 1u32..=51 {
        let (stored, verdict) = push_and_monitor(&mut prod, &mut monitor, &batch);
        assert_eq!(stored, 0);
        if round == 51 {
            assert_eq!(verdict, PushVerdict::Fatal);
        } else if round == 25 {
            assert_eq!(verdict, PushVerdict::Warn);
        } else {
            assert_eq!(verdict, PushVerdict::Healthy);
        }
    }
}

#[test]
fn overflow_streak_resets_on_a_full_push() {
    let mut monitor = OverflowMonitor::new();
    for _ in 0..50 {
        let _ = monitor.record_push(0, 4);
    }
    // A successful push resets the streak: the next shortfall is harmless.
    assert_eq!(monitor.record_push(4, 4), PushVerdict::Healthy);
    assert_eq!(monitor.record_push(0, 4), PushVerdict::Healthy);
}

#[test]
fn speaker_input_normalizes_the_device_id() {
    let inp = SpeakerInput::new(None).unwrap();
    assert_eq!(inp.device_id(), &None);
    let inp = SpeakerInput::new(Some(String::new())).unwrap();
    assert_eq!(inp.device_id(), &None);
    let inp = SpeakerInput::new(Some("default".to_string())).unwrap();
    assert_eq!(inp.device_id(), &None);
    let inp = SpeakerInput::new(Some("device-7".to_string())).unwrap();
    assert_eq!(inp.device_id(), &Some("device-7".to_string()));
}

#[test]
fn speaker_stream_reports_the_negotiated_rate_or_falls_back() {
    let inp = SpeakerInput::new(None).unwrap();
    let (_prod, cons) = capture_queue();
    let stream = inp.stream(cons, Some(48000));
    assert_eq!(stream.sample_rate(), 48000);

    let inp = SpeakerInput::new(None).unwrap();
    let (_prod, cons) = capture_queue();
    let stream = inp.stream(cons, None);
    assert_eq!(stream.sample_rate(), 44100);
}

#[test]
fn speaker_stream_hands_its_consumer_out_once() {
    let inp = SpeakerInput::new(None).unwrap();
    let (mut prod, cons) = capture_queue();
    let mut stream = inp.stream(cons, Some(48000));
    let mut taken = stream.take_consumer().unwrap();
    assert!(stream.take_consumer().is_none());
    // The taken half still reads what the producer wrote.
    let mut monitor = OverflowMonitor::new();
    let (stored, _) = push_and_monitor(&mut prod, &mut monitor, &vec![5i16, 6]);
    assert_eq!(stored, 2);
    assert_eq!(taken.drain(4), vec![5, 6]);
}

#[test]
fn device_list_starts_with_the_default_entry_and_skips_empty_ids() {
    let pairs = vec![
        ("uid-1".to_string(), "Speakers".to_string()),
        (String::new(), "Ghost".to_string()),
        ("uid-2".to_string(), "Headphones".to_string()),
    ];
    let list = device_list(
        "default".to_string(),
        "Default Speakers".to_string(),
        &pairs,
    );
    assert_eq!(list.len(), 3);
    assert_eq!(list[0].id, "default");
    assert_eq!(list[0].name, "Default Speakers");
    assert_eq!(list[1].id, "uid-1");
    assert_eq!(list[1].name, "Speakers");
    assert_eq!(list[2].id, "uid-2");
    assert_eq!(list[2].name, "Headphones");
}

#[test]
fn parse_sample_rate_reads_the_rate_field() {
    let desc = b"<AVAudioFormat: 2 ch, sample_rate: 44100.0, format: float>".to_vec();
    assert_eq!(parse_sample_rate(&desc), Some(44100));
    let desc = b"sample_rate: 48000, rest".to_vec();
    assert_eq!(parse_sample_rate(&desc), Some(48000));
    let desc = b"sample_rate:  96000.25 , rest".to_vec();
    assert_eq!(parse_sample_rate(&desc), Some(96000));
    let desc = b"sample_rate: \t8000\t, rest".to_vec();
    assert_eq!(parse_sample_rate(&desc), Some(8000));
}

#[test]
fn parse_sample_rate_rejects_garbage() {
    assert_eq!(parse_sample_rate(&b"no rate here".to_vec()), None);
    assert_eq!(parse_sample_rate(&b"sample_rate: 44100.0".to_vec()), None);
    assert_eq!(parse_sample_rate(&b"sample_rate: abc, x".to_vec()), None);
    assert_eq!(parse_sample_rate(&b"sample_rate: 44x00, x".to_vec()), None);
    assert_eq!(parse_sample_rate(&b"sample_rate: , x".to_vec()), None);
    assert_eq!(
        parse_sample_rate(&b"sample_rate: 99999999999999999999, x".to_vec()),
        None
    );
}

#[test]
fn effective_rate_falls_back_on_implausible_values() {
    assert_eq!(effective_sample_rate(Some(44100)), 44100);
    assert_eq!(effective_sample_rate(Some(100)), 100);
    assert_eq!(effective_sample_rate(Some(99)), 48000);
    assert_eq!(effective_sample_rate(Some(0)), 48000);
    assert_eq!(effective_sample_rate(None), 48000);
}

#[test]
fn worker_construction_mirrors_the_converter_errors() {
    assert!(matches!(
        CaptureWorker::microphone(0),
        Err(AudioError::UnsupportedRate)
    ));
    assert!(CaptureWorker::system_audio(48000).is_ok());
}

#[test]
fn worker_step_converts_gates_and_encodes() {
    // At 32000 Hz, 3200 raw samples convert to one 1600-sample chunk.
    let mut worker = CaptureWorker::system_audio(32000).unwrap();
    // Two silent batches: nothing emitted, pre-roll fills.
    assert!(worker.step(vec![0i16; 3200], 0).is_empty());
    assert!(worker.step(vec![0i16; 3200], 100).is_empty());
    // A loud batch: the two buffered silent chunks, then the loud one.
    let out = worker.step(vec![150i16; 3200], 200);
    assert_eq!(out.len(), 3);
    assert_eq!(out[0], encode_pcm_le(&vec![0i16; 1600]));
    assert_eq!(out[1], encode_pcm_le(&vec![0i16; 1600]));
    assert_eq!(out[2], encode_pcm_le(&vec![150i16; 1600]));
}

#[test]
fn worker_skips_empty_and_sub_sample_batches() {
    let mut worker = CaptureWorker::microphone(16000).unwrap();
    assert!(worker.step(Vec::new(), 0).is_empty());
    // 48000 Hz worker: two raw samples convert to zero output samples.
    let mut worker = CaptureWorker::microphone(48000).unwrap();
    assert!(worker.step(vec![9000i16, 9000], 0).is_empty());
}

#[test]
fn worker_reset_returns_the_gate_to_idle() {
    let mut worker = CaptureWorker::microphone(16000).unwrap();
    let out = worker.step(vec![150i16; 1600], 0);
    assert_eq!(out.len(), 1);
    worker.reset_gate();
    // After the reset the voice-activity gate is Idle again: quiet chunks are buffered, and
    // the next trigger flushes only what was buffered since the reset.
    assert!(worker.step(vec![0i16; 1600], 100).is_empty());
    let out = worker.step(vec![150i16; 1600], 200);
    assert_eq!(out.len(), 2);
}

#[test]
fn full_pipeline_from_queue_to_gated_bytes() {
    // Producer side: raw 32 kHz samples pushed into the bounded queue.
    let (mut prod, cons) = capture_queue();
    let mut monitor = OverflowMonitor::new();
    let inp = SpeakerInput::new(Some("default".to_string())).unwrap();
    let mut stream = inp.stream(cons, Some(32000));
    assert_eq!(stream.sample_rate(), 32000);
    let mut cons = stream.take_consumer().unwrap();
    let mut worker = CaptureWorker::system_audio(stream.sample_rate()).unwrap();

    let (stored, _) = push_and_monitor(&mut prod, &mut monitor, &vec![0i16; 3200]);
    assert_eq!(stored, 3200);
    let batch = cons.drain(4800);
    assert_eq!(batch.len(), 3200);
    assert!(worker.step(batch, 0).is_empty());

    let (stored, _) = push_and_monitor(&mut prod, &mut monitor, &vec![200i16; 3200]);
    assert_eq!(stored, 3200);
    let batch = cons.drain(4800);
    let out = worker.step(batch, 100);
    assert_eq!(out.len(), 2);
    assert_eq!(out[0], encode_pcm_le(&vec![0i16; 1600]));
    assert_eq!(out[1], encode_pcm_le(&vec![200i16; 1600]));
}

#[test]
fn push_into_a_full_queue_is_a_harmless_first_shortfall() {
    let (mut prod, mut cons) = capture_queue();
    let mut monitor = OverflowMonitor::new();
    let (stored, verdict) =
        push_and_monitor(&mut prod, &mut monitor, &vec![0i16; SAMPLE_QUEUE_CAPACITY]);
    assert_eq!(stored, SAMPLE_QUEUE_CAPACITY);
    assert_eq!(verdict, PushVerdict::Healthy);
    // The queue is full now: the next push stores nothing, a shortfall,
    // but a single one is not yet worth a warning.
    let (stored, verdict) = push_and_monitor(&mut prod, &mut monitor, &vec![6i16]);
    assert_eq!(stored, 0);
    assert_eq!(verdict, PushVerdict::Healthy);
    assert_eq!(cons.drain(3), vec![0, 0, 0]);
}
