use keyboard_synth::keyboard::KeyboardSynth;
use keyboard_synth::notes::{PITCH_RATIO_ONE, VOICE_COUNT};

#[test]
fn fresh_engine_is_silent() {
    let synth = KeyboardSynth::new();
    for v in 0..VOICE_COUNT {
        assert_eq!(synth.voice_note(v), None);
        assert_eq!(synth.voice_base_millis(v), 0);
        assert_eq!(synth.voice_freq_millis(v), 0);
        assert!(!synth.voice_gate(v));
    }
    assert_eq!(synth.steal_cursor(), 0);
    assert_eq!(synth.pitch_ratio(), PITCH_RATIO_ONE);
    for octave in 0..4 {
        for key in 0..12 {
            assert!(!synth.key_state(key, octave));
        }
    }
}

#[test]
fn press_assigns_lowest_free_slot_in_order() {
    let mut synth = KeyboardSynth::new();
    for key in 0..7 {
        synth.update_key(key, 0, true);
        assert_eq!(synth.voice_note(key), Some(key as u8));
        assert!(synth.voice_gate(key));
    }
    // No steal happened, so the cursor never moved.
    assert_eq!(synth.steal_cursor(), 0);
}

#[test]
fn eighth_press_steals_at_cursor_and_advances_it() {
    let mut synth = KeyboardSynth::new();
    for key in 0..7 {
        synth.update_key(key, 0, true);
    }
    // All seven voices busy: note 7 steals slot 0, the cursor's slot.
    synth.update_key(7, 0, true);
    assert_eq!(synth.voice_note(0), Some(7));
    assert!(synth.voice_gate(0));
    assert_eq!(synth.steal_cursor(), 1);
}

#[test]
fn release_does_not_free_so_next_press_still_steals() {
    let mut synth = KeyboardSynth::new();
    for key in 0..7 {
        synth.update_key(key, 0, true);
    }
    synth.update_key(7, 0, true);
    assert_eq!(synth.steal_cursor(), 1);
    // Releasing note 1 drops its gate but keeps slot 1 assigned ...
    synth.update_key(1, 0, false);
    assert_eq!(synth.voice_note(1), Some(1));
    assert!(!synth.voice_gate(1));
    // ... so pressing note 8 finds no free slot and steals slot 1.
    synth.update_key(8, 0, true);
    assert_eq!(synth.voice_note(1), Some(8));
    assert!(synth.voice_gate(1));
    assert_eq!(synth.steal_cursor(), 2);
}

#[test]
fn full_revolution_steals_every_slot_exactly_once() {
    let mut synth = KeyboardSynth::new();
    // Fill the pool with the 12 keys of octave 0 first.
    for key in 0..7 {
        synth.update_key(key, 0, true);
    }
    // Seven more distinct notes (octave 1): each steals the next slot.
    for i in 0..7 {
        synth.update_key(i, 1, true);
        assert_eq!(synth.voice_note(i), Some(0x10 | i as u8));
        assert_eq!(synth.steal_cursor(), (i + 1) % VOICE_COUNT);
    }
    // Every slot was stolen exactly once: all original notes are gone.
    for v in 0..VOICE_COUNT {
        assert_eq!(synth.voice_note(v), Some(0x10 | v as u8));
    }
}

#[test]
fn repress_retriggers_same_slot_same_base() {
    let mut synth = KeyboardSynth::new();
    synth.update_key(2, 0, true);
    let base = synth.voice_base_millis(0);
    assert_eq!(synth.voice_note(0), Some(2));
    assert_eq!(base, 146_830);
    synth.update_key(2, 0, false);
    assert!(!synth.voice_gate(0));
    // Pressing the same key again finds its released voice and only raises
    // its gate: same slot, same base frequency, no new allocation.
    synth.update_key(2, 0, true);
    assert_eq!(synth.voice_note(0), Some(2));
    assert_eq!(synth.voice_base_millis(0), base);
    assert!(synth.voice_gate(0));
    assert_eq!(synth.voice_note(1), None);
    assert_eq!(synth.steal_cursor(), 0);
}

#[test]
fn note_on_twice_in_a_row_is_idempotent() {
    let mut synth = KeyboardSynth::new();
    synth.note_on(3, 0);
    let base = synth.voice_base_millis(0);
    synth.note_on(3, 0);
    assert_eq!(synth.voice_note(0), Some(3));
    assert_eq!(synth.voice_base_millis(0), base);
    assert!(synth.voice_gate(0));
    assert_eq!(synth.voice_note(1), None);
    assert_eq!(synth.steal_cursor(), 0);
}

#[test]
fn released_slot_is_not_reused_while_free_slots_remain() {
    let mut synth = KeyboardSynth::new();
    synth.update_key(0, 0, true);
    synth.update_key(0, 0, false);
    // Slot 0 still belongs to note 0; a new note takes the next free slot.
    synth.update_key(1, 0, true);
    assert_eq!(synth.voice_note(0), Some(0));
    assert_eq!(synth.voice_note(1), Some(1));
}

#[test]
fn note_off_for_unknown_note_is_a_no_op() {
    let mut synth = KeyboardSynth::new();
    synth.update_key(0, 0, true);
    synth.note_off(5, 2);
    assert_eq!(synth.voice_note(0), Some(0));
    assert!(synth.voice_gate(0));
    for v in 1..VOICE_COUNT {
        assert_eq!(synth.voice_note(v), None);
    }
}

#[test]
fn repeated_level_fires_no_event() {
    let mut synth = KeyboardSynth::new();
    synth.update_key(0, 0, true);
    assert!(synth.key_state(0, 0));
    // Drop its gate directly, then feed the same pressed level again: the
    // stored state already says pressed, so no retrigger event fires.
    synth.note_off(0, 0);
    assert!(!synth.voice_gate(0));
    synth.update_key(0, 0, true);
    assert!(!synth.voice_gate(0));
    // A release edge, then a press edge, retriggers.
    synth.update_key(0, 0, false);
    synth.update_key(0, 0, true);
    assert!(synth.voice_gate(0));
}

#[test]
fn same_key_different_octave_is_a_different_note() {
    let mut synth = KeyboardSynth::new();
    synth.update_key(4, 0, true);
    synth.update_key(4, 2, true);
    assert_eq!(synth.voice_note(0), Some(0x04));
    assert_eq!(synth.voice_note(1), Some(0x24));
    assert_eq!(synth.voice_base_millis(0), 164_810);
    assert_eq!(synth.voice_base_millis(1), 164_810 * 4);
}

#[test]
fn out_of_range_bend_is_rejected_without_mutation() {
    let mut synth = KeyboardSynth::new();
    synth.update_key(9, 1, true);
    let freq = synth.voice_freq_millis(0);
    assert!(!synth.set_pitch_bend(12_001));
    assert!(!synth.set_pitch_bend(-12_001));
    assert!(!synth.set_pitch_bend(i32::MAX));
    assert!(!synth.set_pitch_bend(i32::MIN));
    assert_eq!(synth.pitch_ratio(), PITCH_RATIO_ONE);
    assert_eq!(synth.voice_freq_millis(0), freq);
}

#[test]
fn full_octave_bend_uses_linear_approximation() {
    let mut synth = KeyboardSynth::new();
    // Key 9 (A) in octave 1: concert A, base 440 Hz.
    synth.update_key(9, 1, true);
    assert_eq!(synth.voice_base_millis(0), 440_000);
    assert_eq!(synth.voice_freq_millis(0), 440_000);
    assert!(synth.set_pitch_bend(12_000));
    // 440 * (1 + 12 * 0.057762265) lands near 745 Hz, deliberately not the
    // 880 Hz of true equal temperament.
    assert_eq!(synth.voice_freq_millis(0), 744_984);
    assert_ne!(synth.voice_freq_millis(0), 880_000);
    // The stored base is unaffected by bending.
    assert_eq!(synth.voice_base_millis(0), 440_000);
}

#[test]
fn bend_applies_to_every_assigned_voice_and_no_other() {
    let mut synth = KeyboardSynth::new();
    synth.update_key(9, 0, true);
    synth.update_key(9, 1, true);
    assert!(synth.set_pitch_bend(12_000));
    assert_eq!(synth.voice_freq_millis(0), 372_492);
    assert_eq!(synth.voice_freq_millis(1), 744_984);
    for v in 2..VOICE_COUNT {
        assert_eq!(synth.voice_note(v), None);
        assert_eq!(synth.voice_freq_millis(v), 0);
        assert_eq!(synth.voice_base_millis(v), 0);
    }
    // Resetting the bend restores the base frequencies exactly.
    assert!(synth.set_pitch_bend(0));
    assert_eq!(synth.voice_freq_millis(0), 220_000);
    assert_eq!(synth.voice_freq_millis(1), 440_000);
}

#[test]
fn allocation_under_active_bend_applies_bend_immediately() {
    let mut synth = KeyboardSynth::new();
    assert!(synth.set_pitch_bend(12_000));
    synth.update_key(9, 1, true);
    assert_eq!(synth.voice_base_millis(0), 440_000);
    assert_eq!(synth.voice_freq_millis(0), 744_984);
}

#[test]
fn at_most_one_slot_per_note() {
    let mut synth = KeyboardSynth::new();
    for _ in 0..3 {
        synth.note_on(6, 2);
    }
    let note = Some(0x26);
    let held = (0..VOICE_COUNT).filter(|&v| synth.voice_note(v) == note).count();
    assert_eq!(held, 1);
}
