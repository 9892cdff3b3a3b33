use palit_client::timing::{beat_offset, char_offset, offset_char, sample_rate, time_to_offset, Rate, Time};
use palit_client::waveform::{pair_to_char, sketch_peaks, sketch_ready};

#[test]
fn sample_rates_of_each_rate() {
    assert_eq!(sample_rate(Rate::Fast), 64000);
    assert_eq!(sample_rate(Rate::Med), 48000);
    assert_eq!(sample_rate(Rate::Slow), 32000);
}

#[test]
fn char_offset_counts_whole_beats_times_zoom() {
    // 60 bpm at 48 kHz: 48000 samples per beat
    assert_eq!(char_offset(96000, 48000, 60, 1), 2);
    assert_eq!(char_offset(96000, 48000, 60, 3), 6);
    // a partial beat does not count
    assert_eq!(char_offset(95999, 48000, 60, 1), 1);
    assert_eq!(char_offset(0, 48000, 120, 4), 0);
}

#[test]
fn char_offset_keeps_low_sixteen_bits() {
    // 65537 beats of one sample each at zoom 1: 65537 mod 65536 = 1
    assert_eq!(char_offset(65537, 1, 60, 1), 1);
}

#[test]
fn offset_char_is_beats_times_samples_per_beat() {
    // 120 bpm at 48 kHz: 24000 samples per beat
    assert_eq!(offset_char(3, 48000, 120, 1), 72000);
    assert_eq!(offset_char(0, 48000, 120, 7), 0);
}

#[test]
fn offset_round_trip_gives_beats_times_zoom() {
    let offset = offset_char(5, 48000, 120, 1);
    assert_eq!(char_offset(offset, 48000, 120, 3), 15);
}

#[test]
fn beat_offset_counts_in_steps_of_zoom() {
    assert_eq!(beat_offset(96000, Rate::Med, 60, 2), 1);
    assert_eq!(beat_offset(96000, Rate::Med, 60, 1), 2);
    assert_eq!(beat_offset(128000, Rate::Fast, 60, 1), 2);
}

#[test]
fn time_to_offset_divides_toward_zero() {
    assert_eq!(time_to_offset(2, Time(3, 0), Time(13, 0)), 2);
    assert_eq!(time_to_offset(2, Time(2, 1), Time(-7, 5)), -1);
    assert_eq!(time_to_offset(-1, Time(1, 0), Time(5, 0)), -5);
}

#[test]
fn pair_to_char_fills_columns_from_the_bottom() {
    assert_eq!(pair_to_char((0, 0)), '\u{2800}');
    assert_eq!(pair_to_char((1, 0)), '\u{2840}');
    assert_eq!(pair_to_char((0, 1)), '\u{2880}');
    assert_eq!(pair_to_char((2, 2)), '\u{28e4}');
    assert_eq!(pair_to_char((4, 4)), '\u{28ff}');
    assert_eq!(pair_to_char((9, 3)), '\u{28f7}');
}

#[test]
fn sketch_peaks_pair_chunk_peaks() {
    // two channels, eight frames, two columns: chunks of two frames (four samples)
    let samples = vec![1, -7, 3, 2, 0, 0, -1, 5, 9, 1, 1, 1, 2, -2, 4, -3];
    assert!(sketch_ready(&samples, 2, 8, 2));
    let (pairs, top) = sketch_peaks(&samples, 2, 8, 2).unwrap();
    assert_eq!(pairs, vec![(7, 5), (9, 4)]);
    assert_eq!(top, 9);
}

#[test]
fn sketch_peaks_empty_without_columns_or_frames() {
    assert!(sketch_peaks(&vec![1, 2, 3], 1, 3, 0).is_none());
    assert!(sketch_peaks(&vec![1, 2, 3], 1, 3, 2).is_none());
    assert!(sketch_ready(&vec![1, 2, 3], 1, 3, 2));
    // an empty sketch reads no sample
    assert!(sketch_ready(&vec![i32::MIN], 1, 3, 0));
    assert!(sketch_peaks(&vec![i32::MIN], 1, 3, 0).is_none());
    assert!(sketch_ready(&vec![i32::MIN, 1, 2], 1, 3, 2));
}

#[test]
fn sketch_needs_peaks_that_pair_up() {
    // three samples in chunks of one: three peaks cannot pair up
    assert!(!sketch_ready(&vec![1, 2, 3], 1, 4, 2));
    assert!(!sketch_ready(&vec![], 1, 4, 2));
    assert!(sketch_ready(&vec![1, 2, 3, 4], 1, 4, 2));
    // no chunk of no sample
    assert!(!sketch_ready(&vec![1, 2, 3, 4], 0, 4, 2));
}

#[test]
fn sketch_reads_only_the_chunks_it_takes() {
    // four chunks of one sample are taken; the fifth sample is never read
    let samples = vec![1, -2, 3, -4, i32::MIN];
    assert!(sketch_ready(&samples, 1, 4, 2));
    let (pairs, top) = sketch_peaks(&samples, 1, 4, 2).unwrap();
    assert_eq!(pairs, vec![(1, 2), (3, 4)]);
    assert_eq!(top, 4);
    // a taken sample whose size does not fit
    assert!(!sketch_ready(&vec![1, i32::MIN, 3, 4], 1, 4, 2));
    // the column count overflows
    assert!(!sketch_ready(&vec![1, 2], 1, 4, usize::MAX));
}

#[test]
fn beats_round_trip_to_the_start_of_the_beat() {
    // 48000 samples a second at 120 bpm: 24000 samples a beat
    for offset in [0u32, 1, 23999, 24000, 100000, 4_000_000] {
        let c = char_offset(offset, 48000, 120, 1);
        assert!(offset_char(c, 48000, 120, 1) <= offset);
        assert!(offset < offset_char(c + 1, 48000, 120, 1));
    }
    assert_eq!(char_offset(100000, 48000, 120, 1), 4);
    assert_eq!(offset_char(4, 48000, 120, 1), 96000);
}
