use keyboard_synth::notes::{
    base_freq_millis, bent_freq_millis, encode_note, octave_mult, pitch_ratio_num,
    semitone_millis, BEND_MILLI_FACTOR, KEY_COUNT, MAX_BASE_MILLIS, MAX_BEND_MILLIS, OCTAVE_COUNT,
    PITCH_RATIO_MAX, PITCH_RATIO_MIN, PITCH_RATIO_ONE, VOICE_COUNT,
};

#[test]
fn configuration_constants() {
    assert_eq!(KEY_COUNT, 12);
    assert_eq!(OCTAVE_COUNT, 4);
    assert_eq!(VOICE_COUNT, 7);
    assert_eq!(PITCH_RATIO_ONE, 1_000_000_000_000);
    assert_eq!(BEND_MILLI_FACTOR, 57_762_265);
    assert_eq!(MAX_BEND_MILLIS, 12_000);
    assert_eq!(MAX_BASE_MILLIS, 1_975_520);
}

#[test]
fn semitone_table_exact() {
    let expected: [u64; 12] = [
        130_810, 138_590, 146_830, 155_560, 164_810, 174_610, 185_000, 196_000, 207_650, 220_000,
        233_080, 246_940,
    ];
    for (key, want) in expected.iter().enumerate() {
        assert_eq!(semitone_millis(key), *want);
    }
}

#[test]
fn octave_multipliers() {
    assert_eq!(octave_mult(0), 1);
    assert_eq!(octave_mult(1), 2);
    assert_eq!(octave_mult(2), 4);
    assert_eq!(octave_mult(3), 8);
}

#[test]
fn base_frequency_doubles_per_octave() {
    // A in octave 1 is concert A at 440 Hz.
    assert_eq!(base_freq_millis(9, 0), 220_000);
    assert_eq!(base_freq_millis(9, 1), 440_000);
    assert_eq!(base_freq_millis(9, 2), 880_000);
    assert_eq!(base_freq_millis(9, 3), 1_760_000);
    // The extremes of the supported range.
    assert_eq!(base_freq_millis(0, 0), 130_810);
    assert_eq!(base_freq_millis(11, 3), MAX_BASE_MILLIS);
}

#[test]
fn note_encoding_layout() {
    assert_eq!(encode_note(0, 0), 0x00);
    assert_eq!(encode_note(11, 0), 0x0B);
    assert_eq!(encode_note(0, 1), 0x10);
    assert_eq!(encode_note(11, 3), 0x3B);
    assert_eq!(encode_note(5, 2), 0x25);
}

#[test]
fn note_encoding_injective_over_supported_range() {
    let mut seen = [false; 256];
    for octave in 0..4u8 {
        for key in 0..12u8 {
            let id = encode_note(key, octave) as usize;
            assert!(!seen[id], "duplicate note id {}", id);
            seen[id] = true;
        }
    }
}

#[test]
fn pitch_ratio_endpoints() {
    assert_eq!(pitch_ratio_num(0), PITCH_RATIO_ONE);
    assert_eq!(pitch_ratio_num(12_000), 1_693_147_180_000);
    assert_eq!(pitch_ratio_num(-12_000), 306_852_820_000);
    assert_eq!(pitch_ratio_num(12_000), PITCH_RATIO_MAX);
    assert_eq!(pitch_ratio_num(-12_000), PITCH_RATIO_MIN);
    // One semitone up: 1 + 0.057762265 at the fixed-point scale.
    assert_eq!(pitch_ratio_num(1_000), 1_057_762_265_000);
}

#[test]
fn bent_frequency_identity_at_no_bend() {
    assert_eq!(bent_freq_millis(440_000, PITCH_RATIO_ONE), 440_000);
    assert_eq!(bent_freq_millis(130_810, PITCH_RATIO_ONE), 130_810);
}

#[test]
fn bent_frequency_linear_approximation_full_octave() {
    // A bend of +12 semitones on 440 Hz lands near 745 Hz under the linear
    // approximation, not at the 880 Hz of true equal temperament.
    let bent = bent_freq_millis(440_000, pitch_ratio_num(12_000));
    assert_eq!(bent, 744_984);
    assert_ne!(bent, 880_000);
}

#[test]
fn bent_frequency_downward() {
    let bent = bent_freq_millis(440_000, pitch_ratio_num(-12_000));
    // 440 Hz scaled by 0.30685282, truncated to millihertz.
    assert_eq!(bent, 135_015);
}
