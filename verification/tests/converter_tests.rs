use voice_gate::converter::SampleRateConverter;
use voice_gate::AudioError;

#[test]
fn construction_rejects_rate_zero() {
    assert!(matches!(
        SampleRateConverter::new(0),
        Err(AudioError::UnsupportedRate)
    ));
    let c = SampleRateConverter::new(48000).unwrap();
    assert_eq!(c.input_rate(), 48000);
}

#[test]
fn silence_round_trip_stays_silent() {
    // All-zero float input scaled to integer PCM is all-zero; converting it
    // keeps it all-zero, at the exact converted length.
    let c = SampleRateConverter::new(48000).unwrap();
    let input = vec![0i16; 4800];
    let out = c.convert(&input).unwrap();
    assert_eq!(out.len(), 1600);
    assert!(out.iter().all(|&s| s == 0));
}

#[test]
fn output_length_follows_the_rate_ratio() {
    let c = SampleRateConverter::new(44100).unwrap();
    let input = vec![7i16; 4410];
    let out = c.convert(&input).unwrap();
    // 4410 * 16000 / 44100 = 1600
    assert_eq!(out.len(), 1600);

    let c = SampleRateConverter::new(22050).unwrap();
    let out = c.convert(&vec![7i16; 2205]).unwrap();
    assert_eq!(out.len(), 1600);

    let c = SampleRateConverter::new(8000).unwrap();
    let out = c.convert(&vec![7i16; 800]).unwrap();
    assert_eq!(out.len(), 1600);
}

#[test]
fn identity_rate_returns_the_input() {
    let c = SampleRateConverter::new(16000).unwrap();
    let input: Vec<i16> = (0..1600).map(|i| (i % 321) as i16 - 160).collect();
    let out = c.convert(&input).unwrap();
    assert_eq!(out, input);
}

#[test]
fn downsampling_picks_the_zero_order_hold_samples() {
    // At 32000 Hz input, output position j reads input position 2 * j.
    let c = SampleRateConverter::new(32000).unwrap();
    let input: Vec<i16> = (0..200).map(|i| i as i16).collect();
    let out = c.convert(&input).unwrap();
    assert_eq!(out.len(), 100);
    for (j, &s) in out.iter().enumerate() {
        assert_eq!(s, (2 * j) as i16);
    }
}

#[test]
fn upsampling_repeats_samples() {
    // At 8000 Hz input, output positions 2j and 2j + 1 both read input j.
    let c = SampleRateConverter::new(8000).unwrap();
    let input: Vec<i16> = (0..100).map(|i| (i * 3) as i16).collect();
    let out = c.convert(&input).unwrap();
    assert_eq!(out.len(), 200);
    for (j, &s) in out.iter().enumerate() {
        assert_eq!(s, ((j / 2) * 3) as i16);
    }
}

#[test]
fn conversion_is_deterministic() {
    let c = SampleRateConverter::new(44100).unwrap();
    let input: Vec<i16> = (0..4410).map(|i| ((i * 37) % 4001) as i16 - 2000).collect();
    let a = c.convert(&input).unwrap();
    let b = c.convert(&input).unwrap();
    assert_eq!(a, b);
}

#[test]
fn empty_input_converts_to_empty_output() {
    let c = SampleRateConverter::new(48000).unwrap();
    let out = c.convert(&Vec::new()).unwrap();
    assert!(out.is_empty());
}
