//! The polyphonic keyboard engine: key-matrix edge detection, the fixed
//! voice pool with retrigger / first-free / round-robin-steal allocation,
//! and pitch-bend bookkeeping.
//!
//! The whole engine state is mirrored by the ghost [`SynthModel`], and every
//! mutating operation is pinned to a spec-level transition function over that
//! model, so that properties of call sequences can be proved once at the
//! model level.

use vstd::prelude::*;
use vstd::arithmetic::div_mod::{lemma_small_mod, lemma_mod_sub_multiples_vanish};
use crate::notes::{
    KEY_COUNT, OCTAVE_COUNT, VOICE_COUNT, PITCH_RATIO_ONE, PITCH_RATIO_MIN, PITCH_RATIO_MAX,
    MAX_BEND_MILLIS, MAX_BASE_MILLIS, spec_base_millis, spec_note_id, spec_ratio_num,
    spec_bent_millis, base_freq_millis, encode_note, pitch_ratio_num, bent_freq_millis,
};

verus! {

/// One slot of the fixed polyphony pool.
///
/// `note` is the `NoteId` the slot currently plays, or `None` while the slot
/// has never been assigned. A released slot keeps its note (so the envelope
/// release phase can complete, and so a re-press retriggers the same slot);
/// only a later allocation reuses it.
#[derive(Clone, Copy)]
pub struct Voice {
    /// The encoded note this voice plays, or `None` if never assigned.
    pub note: Option<u8>,
    /// Frequency before pitch bend, in millihertz.
    pub base_millis: u64,
    /// Instantaneous (bent) frequency, in millihertz.
    pub freq_millis: u64,
    /// Envelope gate: `true` drives attack, `false` drives release.
    pub gate: bool,
}

/// The mathematical model of the whole engine state.
#[verifier::ext_equal]
pub ghost struct SynthModel {
    /// The voice pool, indexed by slot.
    pub voices: Seq<Voice>,
    /// Round-robin steal cursor.
    pub next_voice: int,
    /// Last observed key levels, indexed by octave then key.
    pub keys: Seq<Seq<bool>>,
    /// Current pitch-ratio numerator over `PITCH_RATIO_ONE`.
    pub ratio_num: u64,
}

/// A voice slot that has never been assigned.
pub open spec fn spec_unassigned_voice() -> Voice {
    Voice { note: None, base_millis: 0, freq_millis: 0, gate: false }
}

/// No two slots hold the same note.
pub open spec fn voices_distinct(voices: Seq<Voice>) -> bool {
    forall|i: int, j: int|
        #![trigger voices[i].note, voices[j].note]
        0 <= i < voices.len() && 0 <= j < voices.len() && i != j && voices[i].note is Some
            ==> voices[i].note != voices[j].note
}

/// Every slot of the pool is assigned to some note.
pub open spec fn all_assigned(voices: Seq<Voice>) -> bool {
    forall|i: int| 0 <= i < voices.len() ==> (#[trigger] voices[i].note) is Some
}

/// Well-formedness of the model: fixed pool and matrix dimensions, cursor
/// and ratio in range, per-voice base frequencies bounded, every assigned
/// voice's instantaneous frequency consistent with the current ratio, and at
/// most one voice per note.
pub open spec fn wf_model(m: SynthModel) -> bool {
    &&& m.voices.len() == VOICE_COUNT
    &&& 0 <= m.next_voice < VOICE_COUNT
    &&& m.keys.len() == OCTAVE_COUNT
    &&& forall|o: int| 0 <= o < OCTAVE_COUNT ==> (#[trigger] m.keys[o]).len() == KEY_COUNT
    &&& PITCH_RATIO_MIN <= m.ratio_num <= PITCH_RATIO_MAX
    &&& forall|v: int|
        0 <= v < m.voices.len() ==> (#[trigger] m.voices[v]).base_millis <= MAX_BASE_MILLIS
    &&& forall|v: int|
        0 <= v < m.voices.len() && (#[trigger] m.voices[v]).note is Some
            ==> m.voices[v].freq_millis == spec_bent_millis(m.voices[v].base_millis, m.ratio_num)
    &&& voices_distinct(m.voices)
}

/// The model of a freshly constructed engine: all voices unassigned, cursor
/// at slot zero, no key observed pressed, bend ratio exactly one.
pub open spec fn spec_init_model() -> SynthModel {
    SynthModel {
        voices: Seq::new(VOICE_COUNT as nat, |v: int| spec_unassigned_voice()),
        next_voice: 0,
        keys: Seq::new(OCTAVE_COUNT as nat, |o: int| Seq::new(KEY_COUNT as nat, |k: int| false)),
        ratio_num: PITCH_RATIO_ONE,
    }
}

/// Index of the first slot at or after `i` holding `note`, if any.
pub open spec fn find_voice_with_note(voices: Seq<Voice>, note: u8, i: int) -> Option<int>
    decreases voices.len() - i,
{
    if i < 0 || i >= voices.len() {
        None
    } else if voices[i].note == Some(note) {
        Some(i)
    } else {
        find_voice_with_note(voices, note, i + 1)
    }
}

/// Index of the first slot at or after `i` never assigned, if any.
pub open spec fn find_free_voice(voices: Seq<Voice>, i: int) -> Option<int>
    decreases voices.len() - i,
{
    if i < 0 || i >= voices.len() {
        None
    } else if voices[i].note is None {
        Some(i)
    } else {
        find_free_voice(voices, i + 1)
    }
}

/// What `find_voice_with_note` returns: the least matching index at or
/// after `i`, or `None` when no slot from `i` on matches.
pub proof fn lemma_find_note_props(voices: Seq<Voice>, note: u8, i: int)
    requires
        0 <= i <= voices.len(),
    ensures
        match find_voice_with_note(voices, note, i) {
            Some(v) => i <= v < voices.len() && voices[v].note == Some(note)
                && forall|k: int| i <= k < v ==> voices[k].note != Some(note),
            None => forall|k: int| i <= k < voices.len() ==> voices[k].note != Some(note),
        },
    decreases voices.len() - i,
{
    if i < voices.len() && voices[i].note != Some(note) {
        lemma_find_note_props(voices, note, i + 1);
    }
}

/// What `find_free_voice` returns: the least unassigned index at or after
/// `i`, or `None` when every slot from `i` on is assigned.
pub proof fn lemma_find_free_props(voices: Seq<Voice>, i: int)
    requires
        0 <= i <= voices.len(),
    ensures
        match find_free_voice(voices, i) {
            Some(v) => i <= v < voices.len() && voices[v].note is None
                && forall|k: int| i <= k < v ==> (#[trigger] voices[k].note) is Some,
            None => forall|k: int| i <= k < voices.len() ==> (#[trigger] voices[k].note) is Some,
        },
    decreases voices.len() - i,
{
    if i < voices.len() && !(voices[i].note is None) {
        lemma_find_free_props(voices, i + 1);
    }
}

/// The voice value written by an allocation: assigned to `(key, octave)`,
/// base frequency from the semitone table and octave, instantaneous
/// frequency bent by the current ratio, gate high.
pub open spec fn spec_assigned_voice(key: int, octave: int, ratio_num: u64) -> Voice {
    Voice {
        note: Some(spec_note_id(key, octave)),
        base_millis: spec_base_millis(key, octave),
        freq_millis: spec_bent_millis(spec_base_millis(key, octave), ratio_num),
        gate: true,
    }
}

/// The note-on transition: retrigger the slot already holding the note if
/// there is one; otherwise assign the lowest unassigned slot; otherwise
/// steal the slot at the round-robin cursor and advance the cursor.
pub open spec fn spec_note_on(m: SynthModel, key: int, octave: int) -> SynthModel {
    let note = spec_note_id(key, octave);
    match find_voice_with_note(m.voices, note, 0) {
        Some(v) => SynthModel {
            voices: m.voices.update(v, Voice { gate: true, ..m.voices[v] }),
            ..m
        },
        None => match find_free_voice(m.voices, 0) {
            Some(v) => SynthModel {
                voices: m.voices.update(v, spec_assigned_voice(key, octave, m.ratio_num)),
                ..m
            },
            None => SynthModel {
                voices: m.voices.update(
                    m.next_voice,
                    spec_assigned_voice(key, octave, m.ratio_num),
                ),
                next_voice: (m.next_voice + 1) % (VOICE_COUNT as int),
                ..m
            },
        },
    }
}

/// The note-off transition: drop the envelope gate of the slot holding
/// the note, keeping it assigned; a no-op when no slot holds the note.
pub open spec fn spec_note_off(m: SynthModel, key: int, octave: int) -> SynthModel {
    match find_voice_with_note(m.voices, spec_note_id(key, octave), 0) {
        Some(v) => SynthModel {
            voices: m.voices.update(v, Voice { gate: false, ..m.voices[v] }),
            ..m
        },
        None => m,
    }
}

/// One voice under a new bend ratio: an assigned voice's instantaneous
/// frequency is recomputed from its base; an unassigned voice is untouched.
pub open spec fn spec_bend_voice(v: Voice, ratio_num: u64) -> Voice {
    if v.note is Some {
        Voice { freq_millis: spec_bent_millis(v.base_millis, ratio_num), ..v }
    } else {
        v
    }
}

/// The pitch-bend transition: store the new ratio and rebend every
/// assigned voice in place.
pub open spec fn spec_set_bend(m: SynthModel, ratio_num: u64) -> SynthModel {
    SynthModel {
        voices: Seq::new(m.voices.len(), |v: int| spec_bend_voice(m.voices[v], ratio_num)),
        ratio_num,
        ..m
    }
}

/// Whether feeding level `pressed` for `(key, octave)` fires an event: it
/// does exactly when the level differs from the stored state.
pub open spec fn spec_event_fires(m: SynthModel, key: int, octave: int, pressed: bool) -> bool {
    m.keys[octave][key] != pressed
}

/// The scan transition for one observed key level: no event means no state
/// change at all; an edge stores the new level and dispatches note-on or
/// note-off.
pub open spec fn spec_update_key(m: SynthModel, key: int, octave: int, pressed: bool) -> SynthModel {
    if !spec_event_fires(m, key, octave, pressed) {
        m
    } else {
        let m2 = SynthModel {
            keys: m.keys.update(octave, m.keys[octave].update(key, pressed)),
            ..m
        };
        if pressed {
            spec_note_on(m2, key, octave)
        } else {
            spec_note_off(m2, key, octave)
        }
    }
}

/// Note-on preserves well-formedness.
pub proof fn lemma_note_on_wf(m: SynthModel, key: int, octave: int)
    requires
        wf_model(m),
        0 <= key < KEY_COUNT,
        0 <= octave < OCTAVE_COUNT,
    ensures
        wf_model(spec_note_on(m, key, octave)),
{
    let note = spec_note_id(key, octave);
    crate::notes::lemma_base_millis_bound(key, octave);
    lemma_find_note_props(m.voices, note, 0);
    lemma_find_free_props(m.voices, 0);
    let m2 = spec_note_on(m, key, octave);
    match find_voice_with_note(m.voices, note, 0) {
        Some(v) => {
            assert(forall|i: int|
                0 <= i < m.voices.len() ==> (#[trigger] m2.voices[i]).note == m.voices[i].note);
        },
        None => {
            match find_free_voice(m.voices, 0) {
                Some(v) => {
                    assert(forall|i: int|
                        0 <= i < m.voices.len() && i != v
                            ==> (#[trigger] m2.voices[i]).note == m.voices[i].note);
                },
                None => {
                    let v = m.next_voice;
                    assert(forall|i: int|
                        0 <= i < m.voices.len() && i != v
                            ==> (#[trigger] m2.voices[i]).note == m.voices[i].note);
                    assert(0 <= (m.next_voice + 1) % (VOICE_COUNT as int) < VOICE_COUNT as int);
                },
            }
        },
    }
}

/// Note-off preserves well-formedness.
pub proof fn lemma_note_off_wf(m: SynthModel, key: int, octave: int)
    requires
        wf_model(m),
        0 <= key < KEY_COUNT,
        0 <= octave < OCTAVE_COUNT,
    ensures
        wf_model(spec_note_off(m, key, octave)),
{
    let note = spec_note_id(key, octave);
    lemma_find_note_props(m.voices, note, 0);
    let m2 = spec_note_off(m, key, octave);
    assert(forall|i: int|
        0 <= i < m.voices.len() ==> (#[trigger] m2.voices[i]).note == m.voices[i].note);
}

/// Pitch bend preserves well-formedness for any legal ratio.
pub proof fn lemma_set_bend_wf(m: SynthModel, ratio_num: u64)
    requires
        wf_model(m),
        PITCH_RATIO_MIN <= ratio_num <= PITCH_RATIO_MAX,
    ensures
        wf_model(spec_set_bend(m, ratio_num)),
{
    let m2 = spec_set_bend(m, ratio_num);
    assert(forall|i: int|
        0 <= i < m.voices.len() ==> (#[trigger] m2.voices[i]).note == m.voices[i].note);
}

/// The scan transition preserves well-formedness.
pub proof fn lemma_update_key_wf(m: SynthModel, key: int, octave: int, pressed: bool)
    requires
        wf_model(m),
        0 <= key < KEY_COUNT,
        0 <= octave < OCTAVE_COUNT,
    ensures
        wf_model(spec_update_key(m, key, octave, pressed)),
{
    if spec_event_fires(m, key, octave, pressed) {
        let m2 = SynthModel {
            keys: m.keys.update(octave, m.keys[octave].update(key, pressed)),
            ..m
        };
        assert(wf_model(m2));
        if pressed {
            lemma_note_on_wf(m2, key, octave);
        } else {
            lemma_note_off_wf(m2, key, octave);
        }
    }
}

/// Event determinism, alternation half: once a level `pressed` fires an
/// event for `(key, octave)`, the stored state equals `pressed`, so the next
/// event this key can fire has the opposite polarity — the per-key event
/// stream never holds two consecutive events of the same polarity.
pub proof fn lemma_event_alternation(m: SynthModel, key: int, octave: int, pressed: bool)
    requires
        wf_model(m),
        0 <= key < KEY_COUNT,
        0 <= octave < OCTAVE_COUNT,
        spec_event_fires(m, key, octave, pressed),
    ensures
        spec_update_key(m, key, octave, pressed).keys[octave][key] == pressed,
        !spec_event_fires(spec_update_key(m, key, octave, pressed), key, octave, pressed),
{
    let m2 = SynthModel {
        keys: m.keys.update(octave, m.keys[octave].update(key, pressed)),
        ..m
    };
    assert(spec_note_on(m2, key, octave).keys == m2.keys);
    assert(spec_note_off(m2, key, octave).keys == m2.keys);
}

/// Event determinism, independence half: feeding a level for one key never
/// changes the stored state of another key, so per-key alternation holds
/// across interleaved scans of the whole matrix.
pub proof fn lemma_scan_independence(
    m: SynthModel,
    key: int,
    octave: int,
    key2: int,
    octave2: int,
    pressed: bool,
)
    requires
        wf_model(m),
        0 <= key < KEY_COUNT,
        0 <= octave < OCTAVE_COUNT,
        0 <= key2 < KEY_COUNT,
        0 <= octave2 < OCTAVE_COUNT,
        key2 != key || octave2 != octave,
    ensures
        spec_update_key(m, key2, octave2, pressed).keys[octave][key] == m.keys[octave][key],
{
    if spec_event_fires(m, key2, octave2, pressed) {
        let m2 = SynthModel {
            keys: m.keys.update(octave2, m.keys[octave2].update(key2, pressed)),
            ..m
        };
        assert(m2.keys[octave][key] == m.keys[octave][key]);
        assert(spec_note_on(m2, key2, octave2).keys == m2.keys);
        assert(spec_note_off(m2, key2, octave2).keys == m2.keys);
    }
}

/// Allocation exclusivity: in any well-formed state, at most one voice slot
/// is assigned to a given note.
pub proof fn lemma_allocation_exclusivity(m: SynthModel, i: int, j: int)
    requires
        wf_model(m),
        0 <= i < VOICE_COUNT,
        0 <= j < VOICE_COUNT,
        i != j,
        m.voices[i].note is Some,
    ensures
        m.voices[i].note != m.voices[j].note,
{
}

/// Retrigger idempotence: a second note-on for the same note, with no
/// intervening note-off, changes nothing — the voice keeps its slot and
/// base frequency, and its gate is merely held high.
pub proof fn lemma_retrigger_idempotent(m: SynthModel, key: int, octave: int)
    requires
        wf_model(m),
        0 <= key < KEY_COUNT,
        0 <= octave < OCTAVE_COUNT,
    ensures
        spec_note_on(spec_note_on(m, key, octave), key, octave) == spec_note_on(m, key, octave),
{
    let n = spec_note_id(key, octave);
    let m1 = spec_note_on(m, key, octave);
    lemma_find_note_props(m.voices, n, 0);
    lemma_find_free_props(m.voices, 0);
    lemma_note_on_wf(m, key, octave);
    let v: int = match find_voice_with_note(m.voices, n, 0) {
        Some(v) => v,
        None => match find_free_voice(m.voices, 0) {
            Some(v) => v,
            None => m.next_voice,
        },
    };
    // Slot `v` is the one the first note-on wrote; it now holds the note
    // with its gate high, and no other slot holds the note.
    assert(m1.voices == m.voices.update(v, m1.voices[v]));
    assert(m1.voices[v].note == Some(n));
    assert(m1.voices[v].gate);
    assert(forall|k: int|
        0 <= k < m1.voices.len() && k != v ==> (#[trigger] m1.voices[k]).note != Some(n));
    lemma_find_note_props(m1.voices, n, 0);
    assert(find_voice_with_note(m1.voices, n, 0) == Some(v));
    // So the second note-on takes the retrigger branch and rewrites slot `v`
    // with its current value.
    assert(Voice { gate: true, ..m1.voices[v] } == m1.voices[v]);
    assert(m1.voices.update(v, m1.voices[v]) =~= m1.voices);
    assert(spec_note_on(m1, key, octave) =~~= m1);
}

/// Pitch-bend exactness: under a legal bend, every assigned voice's
/// instantaneous frequency becomes exactly its base frequency scaled by the
/// ratio `spec_ratio_num(bend) / PITCH_RATIO_ONE`, with note, base and gate
/// untouched; an unassigned voice is untouched entirely.
pub proof fn lemma_pitch_bend_applies(m: SynthModel, bend_millis: int, v: int)
    requires
        wf_model(m),
        -MAX_BEND_MILLIS <= bend_millis <= MAX_BEND_MILLIS,
        0 <= v < VOICE_COUNT,
    ensures
        ({
            let m2 = spec_set_bend(m, spec_ratio_num(bend_millis));
            &&& m.voices[v].note is Some ==> m2.voices[v] == (Voice {
                freq_millis: spec_bent_millis(m.voices[v].base_millis, spec_ratio_num(bend_millis)),
                ..m.voices[v]
            })
            &&& m.voices[v].note is None ==> m2.voices[v] == m.voices[v]
        }),
{
}

/// Whether `p` is a `(key, octave)` pair in the supported ranges.
pub open spec fn valid_press(p: (int, int)) -> bool {
    0 <= p.0 < KEY_COUNT && 0 <= p.1 < OCTAVE_COUNT
}

/// The note a press encodes.
pub open spec fn note_of_press(p: (int, int)) -> u8 {
    spec_note_id(p.0, p.1)
}

/// Every press in the sequence is in range.
pub open spec fn presses_valid(presses: Seq<(int, int)>) -> bool {
    forall|i: int| 0 <= i < presses.len() ==> valid_press(#[trigger] presses[i])
}

/// No two presses in the sequence encode the same note.
pub open spec fn presses_distinct(presses: Seq<(int, int)>) -> bool {
    forall|i: int, j: int|
        #![trigger presses[i], presses[j]]
        0 <= i < j < presses.len() ==> note_of_press(presses[i]) != note_of_press(presses[j])
}

/// No slot of the pool holds `note`.
pub open spec fn note_unassigned(voices: Seq<Voice>, note: u8) -> bool {
    forall|k: int| 0 <= k < voices.len() ==> (#[trigger] voices[k]).note != Some(note)
}

/// No press in the sequence encodes a note some slot already holds.
pub open spec fn presses_fresh(m: SynthModel, presses: Seq<(int, int)>) -> bool {
    forall|i: int|
        0 <= i < presses.len() ==> note_unassigned(m.voices, note_of_press(#[trigger] presses[i]))
}

/// The model after a sequence of note-on events, applied in order.
pub open spec fn spec_note_on_seq(m: SynthModel, presses: Seq<(int, int)>) -> SynthModel
    decreases presses.len(),
{
    if presses.len() == 0 {
        m
    } else {
        spec_note_on_seq(spec_note_on(m, presses[0].0, presses[0].1), presses.drop_first())
    }
}

/// The slot the `i`-th consecutive steal takes, starting from cursor `c`.
pub open spec fn spec_stolen_slot(c: int, i: int) -> int {
    (c + i) % (VOICE_COUNT as int)
}

/// Whether `s` is among the first `len` slots stolen from cursor `c` on.
pub open spec fn in_steal_window(c: int, len: int, s: int) -> bool {
    exists|i: int| 0 <= i < len && s == spec_stolen_slot(c, i)
}

/// Remainders of the cursor arithmetic: every value that arises is below
/// twice the voice count, where the remainder is a plain case split.
proof fn lemma_mod_window(x: int)
    requires
        0 <= x < 2 * (VOICE_COUNT as int),
    ensures
        x % (VOICE_COUNT as int) == if x < VOICE_COUNT {
            x
        } else {
            x - VOICE_COUNT as int
        },
{
    let n = VOICE_COUNT as int;
    if x < n {
        lemma_small_mod(x as nat, n as nat);
    } else {
        lemma_mod_sub_multiples_vanish(x, n);
        lemma_small_mod((x - n) as nat, n as nat);
    }
}

/// Within one full revolution of the cursor, no slot is stolen twice.
pub proof fn lemma_steal_slots_distinct(c: int, i: int, j: int)
    requires
        0 <= c < VOICE_COUNT,
        0 <= i < j < VOICE_COUNT,
    ensures
        spec_stolen_slot(c, i) != spec_stolen_slot(c, j),
{
    lemma_mod_window(c + i);
    lemma_mod_window(c + j);
}

/// Round-robin fairness: starting from a fully busy pool, a run of at most
/// `VOICE_COUNT` presses of distinct, unassigned notes steals exactly the
/// slots at the cursor, cursor plus one, and so on modulo the voice count —
/// one cursor step per steal, each slot stolen at most once (and exactly
/// once when the run is a full revolution) — while every slot outside that
/// window, and the key matrix and bend ratio, are untouched.
pub proof fn lemma_round_robin_fairness(m: SynthModel, presses: Seq<(int, int)>)
    requires
        wf_model(m),
        all_assigned(m.voices),
        presses_valid(presses),
        presses_distinct(presses),
        presses_fresh(m, presses),
        presses.len() <= VOICE_COUNT,
    ensures
        ({
            let m2 = spec_note_on_seq(m, presses);
            let n = VOICE_COUNT as int;
            &&& wf_model(m2)
            &&& all_assigned(m2.voices)
            &&& m2.next_voice == (m.next_voice + presses.len()) % n
            &&& m2.ratio_num == m.ratio_num
            &&& m2.keys == m.keys
            &&& forall|i: int|
                0 <= i < presses.len()
                    ==> m2.voices[spec_stolen_slot(m.next_voice, i)] == spec_assigned_voice(
                    (#[trigger] presses[i]).0,
                    presses[i].1,
                    m.ratio_num,
                )
            &&& forall|s: int|
                0 <= s < n && !in_steal_window(m.next_voice, presses.len() as int, s)
                    ==> m2.voices[s] == m.voices[s]
        }),
    decreases presses.len(),
{
    let n = VOICE_COUNT as int;
    let c0 = m.next_voice;
    if presses.len() == 0 {
        lemma_small_mod(c0 as nat, n as nat);
    } else {
        let p0 = presses[0];
        let rest = presses.drop_first();
        let n0 = note_of_press(p0);
        lemma_find_note_props(m.voices, n0, 0);
        lemma_find_free_props(m.voices, 0);
        assert(note_unassigned(m.voices, n0));
        // Both searches fail: the note is fresh and no slot is free, so the
        // first press steals the slot at the cursor.
        assert(find_voice_with_note(m.voices, n0, 0) is None);
        assert(find_free_voice(m.voices, 0) is None);
        let m1 = spec_note_on(m, p0.0, p0.1);
        lemma_note_on_wf(m, p0.0, p0.1);
        assert(m1.voices == m.voices.update(c0, spec_assigned_voice(p0.0, p0.1, m.ratio_num)));
        assert(m1.next_voice == (c0 + 1) % n);
        lemma_mod_window(c0 + 1);
        let c1 = m1.next_voice;
        assert(all_assigned(m1.voices));
        // The remaining notes are distinct from the one just written, so
        // they are still fresh in the stolen-into pool.
        assert forall|i: int| 0 <= i < rest.len() implies note_unassigned(
            m1.voices,
            note_of_press(#[trigger] rest[i]),
        ) by {
            assert(rest[i] == presses[i + 1]);
            assert(note_unassigned(m.voices, note_of_press(presses[i + 1])));
            assert(note_of_press(presses[i + 1]) != n0);
        }
        assert(presses_fresh(m1, rest));
        assert forall|i: int, j: int| 0 <= i < j < rest.len() implies note_of_press(
            #[trigger] rest[i],
        ) != note_of_press(#[trigger] rest[j]) by {
            assert(rest[i] == presses[i + 1]);
            assert(rest[j] == presses[j + 1]);
        }
        assert(presses_distinct(rest));
        assert forall|i: int| 0 <= i < rest.len() implies valid_press(#[trigger] rest[i]) by {
            assert(rest[i] == presses[i + 1]);
        }
        assert(presses_valid(rest));
        lemma_round_robin_fairness(m1, rest);
        let m2 = spec_note_on_seq(m1, rest);
        assert(spec_note_on_seq(m, presses) == m2);
        // Cursor: one more advance than the tail's run.
        assert(m2.next_voice == (c1 + rest.len()) % n);
        lemma_mod_window(c1 + rest.len());
        lemma_mod_window(c0 + presses.len());
        assert(m2.next_voice == (c0 + presses.len()) % n);
        // The tail's steal window, shifted by one, lies inside this run's
        // window; the slot stolen first is outside the tail's window.
        assert forall|i: int| 0 <= i < presses.len() implies m2.voices[spec_stolen_slot(c0, i)]
            == spec_assigned_voice((#[trigger] presses[i]).0, presses[i].1, m.ratio_num) by {
            if i == 0 {
                lemma_small_mod(c0 as nat, n as nat);
                assert(spec_stolen_slot(c0, 0) == c0);
                if in_steal_window(c1, rest.len() as int, c0) {
                    let j = choose|j: int|
                        0 <= j < rest.len() && c0 == spec_stolen_slot(c1, j);
                    lemma_mod_window(c1 + j);
                    assert(false);
                }
                assert(m2.voices[c0] == m1.voices[c0]);
            } else {
                lemma_mod_window(c1 + (i - 1));
                lemma_mod_window(c0 + i);
                assert(spec_stolen_slot(c1, i - 1) == spec_stolen_slot(c0, i));
                assert(rest[i - 1] == presses[i]);
            }
        }
        assert forall|s: int|
            0 <= s < n && !in_steal_window(c0, presses.len() as int, s) implies m2.voices[s]
            == m.voices[s] by {
            lemma_small_mod(c0 as nat, n as nat);
            assert(spec_stolen_slot(c0, 0) == c0);
            assert(in_steal_window(c0, presses.len() as int, c0));
            assert(s != c0);
            assert(m1.voices[s] == m.voices[s]);
            if in_steal_window(c1, rest.len() as int, s) {
                let j = choose|j: int| 0 <= j < rest.len() && s == spec_stolen_slot(c1, j);
                lemma_mod_window(c1 + j);
                lemma_mod_window(c0 + (j + 1));
                assert(s == spec_stolen_slot(c0, j + 1));
                assert(in_steal_window(c0, presses.len() as int, s));
                assert(false);
            }
            assert(m2.voices[s] == m1.voices[s]);
        }
    }
}

/// Polyphonic keyboard engine over a multiplexed key matrix.
///
/// Key levels come in through [`KeyboardSynth::update_key`], which performs
/// edge detection and dispatches note-on / note-off transitions; the
/// per-voice frequency and gate values that a synthesis back end consumes
/// are read back through the observer methods.
pub struct KeyboardSynth {
    voices: Vec<Voice>,
    next_voice: usize,
    key_states: Vec<Vec<bool>>,
    ratio_num: u64,
}

impl View for KeyboardSynth {
    type V = SynthModel;

    closed spec fn view(&self) -> SynthModel {
        SynthModel {
            voices: self.voices@,
            next_voice: self.next_voice as int,
            keys: self.key_states@.map_values(|row: Vec<bool>| row@),
            ratio_num: self.ratio_num,
        }
    }
}

impl KeyboardSynth {
    /// Well-formedness of the engine state.
    pub open spec fn wf(&self) -> bool {
        wf_model(self@)
    }

    /// Create a new engine with all voices unassigned and no bend.
    pub fn new() -> (s: KeyboardSynth)
        ensures
            s@ == spec_init_model(),
            s.wf(),
    {
        let mut voices: Vec<Voice> = Vec::new();
        let mut i: usize = 0;
        while i < VOICE_COUNT
            invariant
                i <= VOICE_COUNT,
                voices@.len() == i as int,
                forall|k: int| 0 <= k < i ==> voices@[k] == spec_unassigned_voice(),
            decreases VOICE_COUNT - i,
        {
            voices.push(Voice { note: None, base_millis: 0, freq_millis: 0, gate: false });
            i += 1;
        }
        let mut key_states: Vec<Vec<bool>> = Vec::new();
        let mut o: usize = 0;
        while o < OCTAVE_COUNT
            invariant
                o <= OCTAVE_COUNT,
                key_states@.len() == o as int,
                forall|a: int|
                    0 <= a < o ==> (#[trigger] key_states@[a])@
                        =~= Seq::new(KEY_COUNT as nat, |k: int| false),
            decreases OCTAVE_COUNT - o,
        {
            let mut row: Vec<bool> = Vec::new();
            let mut k: usize = 0;
            while k < KEY_COUNT
                invariant
                    k <= KEY_COUNT,
                    row@.len() == k as int,
                    forall|j: int| 0 <= j < k ==> row@[j] == false,
                decreases KEY_COUNT - k,
            {
                row.push(false);
                k += 1;
            }
            proof {
                assert(row@ =~= Seq::new(KEY_COUNT as nat, |k: int| false));
            }
            key_states.push(row);
            o += 1;
        }
        let s = KeyboardSynth { voices, next_voice: 0, key_states, ratio_num: PITCH_RATIO_ONE };
        proof {
            assert(s@ =~~= spec_init_model());
        }
        s
    }

    /// Assign voice slot `v` to `(key, octave)`: store the note, compute the
    /// base frequency from the semitone table, bend it by the current ratio,
    /// and raise its gate.
    fn allocate_voice(&mut self, v: usize, key: usize, octave: usize)
        requires
            old(self).wf(),
            v < VOICE_COUNT,
            key < KEY_COUNT,
            octave < OCTAVE_COUNT,
        ensures
            final(self)@ == (SynthModel {
                voices: old(self)@.voices.update(
                    v as int,
                    spec_assigned_voice(key as int, octave as int, old(self)@.ratio_num),
                ),
                ..old(self)@
            }),
    {
        proof {
            crate::notes::lemma_base_millis_bound(key as int, octave as int);
        }
        let note = encode_note(key as u8, octave as u8);
        let base = base_freq_millis(key, octave);
        let freq = bent_freq_millis(base, self.ratio_num);
        self.voices.set(v, Voice { note: Some(note), base_millis: base, freq_millis: freq, gate: true });
    }

    /// Start (or retrigger) the note at `(key, octave)`.
    ///
    /// If a voice already holds the note, only its gate is raised; otherwise
    /// the lowest unassigned slot is allocated; when none is free, the slot
    /// at the round-robin cursor is stolen and the cursor advances by one,
    /// modulo the voice count.
    #[verifier::loop_isolation(false)]
    pub fn note_on(&mut self, key: usize, octave: usize)
        requires
            old(self).wf(),
            key < KEY_COUNT,
            octave < OCTAVE_COUNT,
        ensures
            final(self).wf(),
            final(self)@ == spec_note_on(old(self)@, key as int, octave as int),
    {
        let ghost m0 = self@;
        proof {
            lemma_find_note_props(m0.voices, spec_note_id(key as int, octave as int), 0);
            lemma_find_free_props(m0.voices, 0);
            lemma_note_on_wf(m0, key as int, octave as int);
        }
        let note = encode_note(key as u8, octave as u8);
        // Retrigger: a voice already holding this exact note keeps its slot
        // and base frequency; only its gate is raised again.
        let mut v: usize = 0;
        while v < VOICE_COUNT
            invariant
                self == old(self),
                self.wf(),
                m0 == self@,
                note == spec_note_id(key as int, octave as int),
                v <= VOICE_COUNT,
                forall|k: int| 0 <= k < v ==> m0.voices[k].note != Some(note),
            decreases VOICE_COUNT - v,
        {
            let matched = match self.voices[v].note {
                Some(n) => n == note,
                None => false,
            };
            if matched {
                let mut voice = self.voices[v];
                voice.gate = true;
                self.voices.set(v, voice);
                proof {
                    assert(find_voice_with_note(m0.voices, note, 0) == Some(v as int));
                    assert(final(self)@ =~~= spec_note_on(m0, key as int, octave as int));
                }
                return;
            }
            v += 1;
        }
        proof {
            assert(find_voice_with_note(m0.voices, note, 0) is None);
        }
        // First-free search, lowest slot first.
        let mut v: usize = 0;
        while v < VOICE_COUNT
            invariant
                self == old(self),
                self.wf(),
                m0 == self@,
                note == spec_note_id(key as int, octave as int),
                find_voice_with_note(m0.voices, note, 0) is None,
                v <= VOICE_COUNT,
                forall|k: int| 0 <= k < v ==> (#[trigger] m0.voices[k].note) is Some,
            decreases VOICE_COUNT - v,
        {
            let free = match self.voices[v].note {
                Some(_) => false,
                None => true,
            };
            if free {
                proof {
                    assert(find_free_voice(m0.voices, 0) == Some(v as int));
                }
                self.allocate_voice(v, key, octave);
                proof {
                    assert(final(self)@ =~~= spec_note_on(m0, key as int, octave as int));
                }
                return;
            }
            v += 1;
        }
        proof {
            assert(find_free_voice(m0.voices, 0) is None);
        }
        // All voices busy: steal at the cursor, advance it regardless.
        let stolen = self.next_voice;
        self.next_voice = (self.next_voice + 1) % VOICE_COUNT;
        self.allocate_voice(stolen, key, octave);
        proof {
            assert(final(self)@ =~~= spec_note_on(m0, key as int, octave as int));
        }
    }

    /// Release the note at `(key, octave)`: drop the envelope gate of the
    /// voice holding it, keeping the voice assigned so its release phase can
    /// complete. A no-op when no voice holds the note.
    #[verifier::loop_isolation(false)]
    pub fn note_off(&mut self, key: usize, octave: usize)
        requires
            old(self).wf(),
            key < KEY_COUNT,
            octave < OCTAVE_COUNT,
        ensures
            final(self).wf(),
            final(self)@ == spec_note_off(old(self)@, key as int, octave as int),
    {
        let ghost m0 = self@;
        proof {
            lemma_find_note_props(m0.voices, spec_note_id(key as int, octave as int), 0);
            lemma_note_off_wf(m0, key as int, octave as int);
        }
        let note = encode_note(key as u8, octave as u8);
        let mut v: usize = 0;
        while v < VOICE_COUNT
            invariant
                self == old(self),
                self.wf(),
                m0 == self@,
                note == spec_note_id(key as int, octave as int),
                v <= VOICE_COUNT,
                forall|k: int| 0 <= k < v ==> m0.voices[k].note != Some(note),
            decreases VOICE_COUNT - v,
        {
            let matched = match self.voices[v].note {
                Some(n) => n == note,
                None => false,
            };
            if matched {
                let mut voice = self.voices[v];
                voice.gate = false;
                self.voices.set(v, voice);
                proof {
                    assert(find_voice_with_note(m0.voices, note, 0) == Some(v as int));
                    assert(final(self)@ =~~= spec_note_off(m0, key as int, octave as int));
                }
                return;
            }
            v += 1;
        }
        proof {
            assert(find_voice_with_note(m0.voices, note, 0) is None);
        }
    }

    /// Set the pitch bend, in milli-semitones.
    ///
    /// A bend outside the legal range is rejected and mutates nothing.
    /// Otherwise the shared ratio is replaced and the instantaneous
    /// frequency of every assigned voice is recomputed from its base;
    /// unassigned voices are untouched.
    #[verifier::loop_isolation(false)]
    pub fn set_pitch_bend(&mut self, bend_millis: i32) -> (ok: bool)
        requires
            old(self).wf(),
        ensures
            final(self).wf(),
            ok == (-MAX_BEND_MILLIS <= bend_millis <= MAX_BEND_MILLIS),
            ok ==> final(self)@ == spec_set_bend(old(self)@, spec_ratio_num(bend_millis as int)),
            !ok ==> final(self)@ == old(self)@,
    {
        if bend_millis < -MAX_BEND_MILLIS || bend_millis > MAX_BEND_MILLIS {
            return false;
        }
        let ghost m0 = self@;
        proof {
            lemma_set_bend_wf(m0, spec_ratio_num(bend_millis as int));
        }
        let ratio = pitch_ratio_num(bend_millis);
        self.ratio_num = ratio;
        let mut v: usize = 0;
        while v < VOICE_COUNT
            invariant
                wf_model(m0),
                ratio == spec_ratio_num(bend_millis as int),
                PITCH_RATIO_MIN <= ratio <= PITCH_RATIO_MAX,
                v <= VOICE_COUNT,
                self@.voices.len() == VOICE_COUNT,
                self@.next_voice == m0.next_voice,
                self@.keys == m0.keys,
                self@.ratio_num == ratio,
                forall|k: int|
                    0 <= k < v ==> self@.voices[k] == spec_bend_voice(m0.voices[k], ratio),
                forall|k: int| v <= k < VOICE_COUNT ==> self@.voices[k] == m0.voices[k],
            decreases VOICE_COUNT - v,
        {
            let voice = self.voices[v];
            let assigned = match voice.note {
                Some(_) => true,
                None => false,
            };
            if assigned {
                let mut voice = voice;
                voice.freq_millis = bent_freq_millis(voice.base_millis, ratio);
                self.voices.set(v, voice);
            }
            v += 1;
        }
        proof {
            assert(final(self)@ =~~= spec_set_bend(m0, ratio));
        }
        true
    }

    /// Feed one observed key level into the engine.
    ///
    /// When the level equals the stored state, nothing happens — a second
    /// scan in the same instant reports no new event. On an edge, the state
    /// is updated synchronously and a note-on or note-off is dispatched, so
    /// each key's event stream alternates strictly between press and
    /// release.
    #[verifier::loop_isolation(false)]
    pub fn update_key(&mut self, key: usize, octave: u8, pressed: bool)
        requires
            old(self).wf(),
            key < KEY_COUNT,
            (octave as int) < OCTAVE_COUNT,
        ensures
            final(self).wf(),
            final(self)@ == spec_update_key(old(self)@, key as int, octave as int, pressed),
    {
        let o = octave as usize;
        let ghost m0 = self@;
        proof {
            lemma_update_key_wf(m0, key as int, octave as int, pressed);
            assert(self.key_states@.len() == self@.keys.len());
            assert(self@.keys[o as int] == self.key_states@[o as int]@);
        }
        let current = self.key_states[o][key];
        if pressed == current {
            return;
        }
        let row = &mut self.key_states[o];
        row.set(key, pressed);
        let ghost m2 = SynthModel {
            keys: m0.keys.update(o as int, m0.keys[o as int].update(key as int, pressed)),
            ..m0
        };
        proof {
            assert(self@.keys =~~= m2.keys);
            assert(self@ =~~= m2);
            assert(wf_model(m2));
        }
        if pressed {
            self.note_on(key, o);
        } else {
            self.note_off(key, o);
        }
    }

    /// The note currently held by voice slot `v`.
    pub fn voice_note(&self, v: usize) -> (r: Option<u8>)
        requires
            self.wf(),
            v < VOICE_COUNT,
        ensures
            r == self@.voices[v as int].note,
    {
        self.voices[v].note
    }

    /// The base (unbent) frequency of voice slot `v`, in millihertz.
    pub fn voice_base_millis(&self, v: usize) -> (r: u64)
        requires
            self.wf(),
            v < VOICE_COUNT,
        ensures
            r == self@.voices[v as int].base_millis,
    {
        self.voices[v].base_millis
    }

    /// The instantaneous (bent) frequency of voice slot `v`, in millihertz.
    pub fn voice_freq_millis(&self, v: usize) -> (r: u64)
        requires
            self.wf(),
            v < VOICE_COUNT,
        ensures
            r == self@.voices[v as int].freq_millis,
    {
        self.voices[v].freq_millis
    }

    /// The envelope gate of voice slot `v`.
    pub fn voice_gate(&self, v: usize) -> (r: bool)
        requires
            self.wf(),
            v < VOICE_COUNT,
        ensures
            r == self@.voices[v as int].gate,
    {
        self.voices[v].gate
    }

    /// The round-robin steal cursor.
    pub fn steal_cursor(&self) -> (r: usize)
        requires
            self.wf(),
        ensures
            r as int == self@.next_voice,
    {
        self.next_voice
    }

    /// The current pitch-ratio numerator over `PITCH_RATIO_ONE`.
    pub fn pitch_ratio(&self) -> (r: u64)
        ensures
            r == self@.ratio_num,
    {
        self.ratio_num
    }

    /// The last observed level of `(key, octave)`.
    pub fn key_state(&self, key: usize, octave: usize) -> (r: bool)
        requires
            self.wf(),
            key < KEY_COUNT,
            octave < OCTAVE_COUNT,
        ensures
            r == self@.keys[octave as int][key as int],
    {
        proof {
            assert(self.key_states@.len() == self@.keys.len());
            assert(self@.keys[octave as int] == self.key_states@[octave as int]@);
        }
        self.key_states[octave][key]
    }
}

/// Sequencer for the octave-select lines of the multiplexed matrix.
///
/// All key inputs are shared across octaves, so the raw pin levels are
/// meaningful for one octave only while that octave's select line — and no
/// other — is enabled. This machine makes the enable / read / disable
/// sequence explicit: a line can only be enabled while none is active, and
/// levels may be attributed to an octave only while its line is the active
/// one, so reads under two active lines cannot be expressed at all.
pub struct OctaveStrobe {
    active: Option<u8>,
}

impl View for OctaveStrobe {
    type V = Option<int>;

    closed spec fn view(&self) -> Option<int> {
        match self.active {
            Some(o) => Some(o as int),
            None => None,
        }
    }
}

impl OctaveStrobe {
    /// The active line, if any, is a supported octave.
    pub open spec fn wf(&self) -> bool {
        forall|o: int| self@ == Some(o) ==> 0 <= o < OCTAVE_COUNT
    }

    /// Start with every octave-select line inactive.
    pub fn new() -> (s: OctaveStrobe)
        ensures
            s.wf(),
            s@ is None,
    {
        OctaveStrobe { active: None }
    }

    /// Enable the select line of `octave`. Only legal while no line is
    /// active; the caller drives the matching hardware line on return.
    pub fn enable(&mut self, octave: u8)
        requires
            old(self).wf(),
            old(self)@ is None,
            (octave as int) < OCTAVE_COUNT,
        ensures
            final(self).wf(),
            final(self)@ == Some(octave as int),
    {
        self.active = Some(octave);
    }

    /// Whether the shared key inputs may be read as levels of `octave`:
    /// exactly when that octave's line is the one active.
    pub fn can_read(&self, octave: u8) -> (r: bool)
        requires
            self.wf(),
        ensures
            r == (self@ == Some(octave as int)),
    {
        match self.active {
            Some(o) => o == octave,
            None => false,
        }
    }

    /// Disable the active select line. Only legal while a line is active;
    /// the caller releases the matching hardware line on return.
    pub fn disable(&mut self)
        requires
            old(self).wf(),
            old(self)@ is Some,
        ensures
            final(self).wf(),
            final(self)@ is None,
    {
        self.active = None;
    }
}

} // verus!
