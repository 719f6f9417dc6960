//! Note identity and frequency arithmetic.
//!
//! A keyboard position is a `(key, octave)` pair; `encode_note` packs it into
//! a single `NoteId` byte, with the key in the low four bits and the octave
//! above, which is injective for the supported ranges.
//!
//! Frequencies are integers in millihertz. The pitch-bend ratio is an integer
//! numerator over the fixed denominator `PITCH_RATIO_ONE`; a bend of
//! `b` milli-semitones maps to the numerator `PITCH_RATIO_ONE + b *
//! BEND_MILLI_FACTOR`, the linear approximation `1 + bend * ln(2)/12` of the
//! equal-tempered ratio `2^(bend/12)`. The approximation is deliberate: it
//! keeps a transcendental computation out of the real-time path at the price
//! of a bounded (under 0.2%) frequency error.

use vstd::prelude::*;

verus! {

/// Number of physical keys: one full chromatic octave.
pub const KEY_COUNT: usize = 12;

/// Number of octave-select lines multiplexing the key matrix.
pub const OCTAVE_COUNT: usize = 4;

/// Number of voices in the fixed polyphony pool.
pub const VOICE_COUNT: usize = 7;

/// Fixed-point denominator for the pitch-bend ratio: a ratio of exactly 1.
pub const PITCH_RATIO_ONE: u64 = 1_000_000_000_000;

/// Ratio units contributed by one milli-semitone of bend:
/// 0.057762265 (= ln(2)/12, rounded) per semitone at the
/// `PITCH_RATIO_ONE` scale, divided by 1000.
pub const BEND_MILLI_FACTOR: u64 = 57_762_265;

/// Largest legal bend magnitude, in milli-semitones (12 semitones).
pub const MAX_BEND_MILLIS: i32 = 12_000;

/// Smallest legal pitch-ratio numerator (bend of -12 semitones).
pub const PITCH_RATIO_MIN: u64 = 1_000_000_000_000 - 12_000 * 57_762_265;

/// Largest legal pitch-ratio numerator (bend of +12 semitones).
pub const PITCH_RATIO_MAX: u64 = 1_000_000_000_000 + 12_000 * 57_762_265;

/// Largest base frequency a voice can hold: key 11 in the top octave.
pub const MAX_BASE_MILLIS: u64 = 246_940 * 8;

/// Frequency in millihertz of semitone `key` in the lowest octave (C3..B3).
pub open spec fn spec_semitone_millis(key: int) -> u64 {
    if key == 0 { 130_810 }       // C
    else if key == 1 { 138_590 }  // C#
    else if key == 2 { 146_830 }  // D
    else if key == 3 { 155_560 }  // D#
    else if key == 4 { 164_810 }  // E
    else if key == 5 { 174_610 }  // F
    else if key == 6 { 185_000 }  // F#
    else if key == 7 { 196_000 }  // G
    else if key == 8 { 207_650 }  // G#
    else if key == 9 { 220_000 }  // A
    else if key == 10 { 233_080 } // A#
    else { 246_940 }              // B
}

/// Frequency multiplier for an octave index: `2^octave`.
pub open spec fn spec_octave_mult(octave: int) -> u64 {
    if octave == 0 { 1 }
    else if octave == 1 { 2 }
    else if octave == 2 { 4 }
    else { 8 }
}

/// Base frequency in millihertz of `(key, octave)`, before any bend.
pub open spec fn spec_base_millis(key: int, octave: int) -> u64 {
    (spec_semitone_millis(key) * spec_octave_mult(octave)) as u64
}

/// The `NoteId` encoding of `(key, octave)`: key in the low four bits.
pub open spec fn spec_note_id(key: int, octave: int) -> u8 {
    (octave * 16 + key) as u8
}

/// Pitch-ratio numerator for a bend of `bend_millis` milli-semitones.
pub open spec fn spec_ratio_num(bend_millis: int) -> u64 {
    (PITCH_RATIO_ONE + bend_millis * BEND_MILLI_FACTOR) as u64
}

/// Frequency in millihertz after applying the bend ratio `ratio_num /
/// PITCH_RATIO_ONE` to `base` millihertz, truncating.
pub open spec fn spec_bent_millis(base: u64, ratio_num: u64) -> u64 {
    ((base * ratio_num) / (PITCH_RATIO_ONE as int)) as u64
}

/// Frequency in millihertz of semitone `key` in the lowest octave.
pub fn semitone_millis(key: usize) -> (r: u64)
    requires
        key < KEY_COUNT,
    ensures
        r == spec_semitone_millis(key as int),
        r <= 246_940,
{
    if key == 0 { 130_810 }
    else if key == 1 { 138_590 }
    else if key == 2 { 146_830 }
    else if key == 3 { 155_560 }
    else if key == 4 { 164_810 }
    else if key == 5 { 174_610 }
    else if key == 6 { 185_000 }
    else if key == 7 { 196_000 }
    else if key == 8 { 207_650 }
    else if key == 9 { 220_000 }
    else if key == 10 { 233_080 }
    else { 246_940 }
}

/// Frequency multiplier `2^octave` for the supported octave range.
pub fn octave_mult(octave: usize) -> (r: u64)
    requires
        octave < OCTAVE_COUNT,
    ensures
        r == spec_octave_mult(octave as int),
        1 <= r <= 8,
{
    if octave == 0 { 1 }
    else if octave == 1 { 2 }
    else if octave == 2 { 4 }
    else { 8 }
}

/// Base frequency in millihertz of `(key, octave)`, before any bend.
pub fn base_freq_millis(key: usize, octave: usize) -> (r: u64)
    requires
        key < KEY_COUNT,
        octave < OCTAVE_COUNT,
    ensures
        r == spec_base_millis(key as int, octave as int),
        r <= MAX_BASE_MILLIS,
{
    let s = semitone_millis(key);
    let m = octave_mult(octave);
    assert(s * m <= 246_940 * 8) by (nonlinear_arith)
        requires
            s <= 246_940,
            1 <= m <= 8,
    ;
    s * m
}

/// The base frequency of any supported `(key, octave)` stays within
/// `MAX_BASE_MILLIS`, and its fixed-width computation never truncates.
pub proof fn lemma_base_millis_bound(key: int, octave: int)
    requires
        0 <= key < KEY_COUNT,
        0 <= octave < OCTAVE_COUNT,
    ensures
        spec_base_millis(key, octave) <= MAX_BASE_MILLIS,
        spec_base_millis(key, octave) == spec_semitone_millis(key) * spec_octave_mult(octave),
{
    let s = spec_semitone_millis(key);
    let m = spec_octave_mult(octave);
    assert(s * m <= 246_940 * 8) by (nonlinear_arith)
        requires
            s <= 246_940,
            1 <= m <= 8,
    ;
}

/// Encode `(key, octave)` into a single `NoteId` byte.
pub fn encode_note(key: u8, octave: u8) -> (r: u8)
    requires
        key < 16,
        octave < 16,
    ensures
        r == spec_note_id(key as int, octave as int),
{
    let r = (octave << 4) | (key & 0x0F);
    proof {
        assert((octave << 4) | (key & 0x0F) == octave * 16 + key) by (bit_vector)
            requires
                key < 16 && octave < 16,
        ;
    }
    r
}

/// No two distinct `(key, octave)` pairs share a `NoteId`.
pub proof fn lemma_note_id_injective(k1: int, o1: int, k2: int, o2: int)
    requires
        0 <= k1 < 16,
        0 <= o1 < 16,
        0 <= k2 < 16,
        0 <= o2 < 16,
        spec_note_id(k1, o1) == spec_note_id(k2, o2),
    ensures
        k1 == k2,
        o1 == o2,
{
}

/// Pitch-ratio numerator for a bend of `bend_millis` milli-semitones.
pub fn pitch_ratio_num(bend_millis: i32) -> (r: u64)
    requires
        -MAX_BEND_MILLIS <= bend_millis <= MAX_BEND_MILLIS,
    ensures
        r == spec_ratio_num(bend_millis as int),
        PITCH_RATIO_MIN <= r <= PITCH_RATIO_MAX,
{
    let delta: i64 = (bend_millis as i64) * (BEND_MILLI_FACTOR as i64);
    let num: i64 = (PITCH_RATIO_ONE as i64) + delta;
    num as u64
}

/// Frequency in millihertz after applying the bend ratio to `base`.
pub fn bent_freq_millis(base: u64, ratio_num: u64) -> (r: u64)
    requires
        base <= MAX_BASE_MILLIS,
        PITCH_RATIO_MIN <= ratio_num <= PITCH_RATIO_MAX,
    ensures
        r == spec_bent_millis(base, ratio_num),
{
    assert(base * ratio_num <= 1_975_520 * 1_693_147_180_000) by (nonlinear_arith)
        requires
            base <= 1_975_520,
            ratio_num <= 1_693_147_180_000,
    ;
    let prod: u64 = base * ratio_num;
    prod / PITCH_RATIO_ONE
}

} // verus!
