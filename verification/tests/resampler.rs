use rusty_bench::resampler::Resampler;

#[test]
fn one_second_of_cd_audio_becomes_one_second_at_target_rate() {
    // 1 second of 44100 Hz stereo: 44100 frames, 88200 samples.
    let mut r = Resampler::new(44100, 48000, 2);
    let input: Vec<i16> = (0..88200).map(|i| (i % 3000) as i16).collect();
    let mut total = r.feed(&input).len();
    total += r.finish().len();
    // 1 second at 48000 Hz stereo, within rounding tolerance.
    assert!((total as i64 - 96000).abs() <= 2 * 2);
    assert_eq!(total, 96000);
}

#[test]
fn equal_rates_pass_samples_through() {
    let mut r = Resampler::new(48000, 48000, 2);
    let input: Vec<i16> = vec![10, -10, 20, -20, 30, -30];
    let out = r.feed(&input);
    assert_eq!(out, input);
    assert!(r.finish().is_empty());
}

#[test]
fn downsampling_halves_the_frames_in_order() {
    let mut r = Resampler::new(96000, 48000, 1);
    let out = r.feed(&vec![1, 2, 3, 4, 5, 6, 7, 8]);
    // Output frame j reads input frame floor(j*2): 1, 3, 5, 7.
    assert_eq!(out, vec![1, 3, 5, 7]);
}

#[test]
fn upsampling_holds_samples() {
    let mut r = Resampler::new(24000, 48000, 1);
    let out = r.feed(&vec![5, 9]);
    // Output frame j reads input frame floor(j/2): 5, 5, 9, 9.
    assert_eq!(out, vec![5, 5, 9, 9]);
}

#[test]
fn remainders_are_kept_across_calls() {
    // Feeding the same stream in one block or in many must emit the
    // same samples in total.
    let stream: Vec<i16> = (0..4410).map(|i| (i * 7 % 997) as i16).collect();
    let mut whole = Resampler::new(44100, 48000, 1);
    let mut expect = whole.feed(&stream);
    expect.extend(whole.finish());

    let mut pieces = Resampler::new(44100, 48000, 1);
    let mut got: Vec<i16> = Vec::new();
    for chunk in stream.chunks(123) {
        got.extend(pieces.feed(&chunk.to_vec()));
    }
    got.extend(pieces.finish());
    assert_eq!(got, expect);
}

#[test]
fn stereo_frames_stay_interleaved() {
    let mut r = Resampler::new(96000, 48000, 2);
    // Frames: (1,-1) (2,-2) (3,-3) (4,-4); output reads frames 0 and 2.
    let out = r.feed(&vec![1, -1, 2, -2, 3, -3, 4, -4]);
    assert_eq!(out, vec![1, -1, 3, -3]);
}
