//! Geometry of the 88-key keyboard: which keys are black, and where a
//! rounded pitch lands in the row of per-key slots.
use vstd::prelude::*;

verus! {

/// Number of keys on a full-size piano.
pub const NUM_KEYS: usize = 88;

/// Number of semitones in an octave.
pub const OCTAVE: usize = 12;

/// Colour class of a key.
#[derive(Clone, Copy, Debug, PartialEq, Eq, Structural)]
pub enum KeyColour {
    White,
    Black,
}

/// Position of a key inside its octave, octaves counted from A: the
/// 1-based key number 1 (A0) is note 0, key 2 (A#0) is note 1, and key 13
/// (A1) is note 0 again.
pub open spec fn note_of_key_number(key_number: int) -> int {
    (key_number - 1) % 12
}

/// The notes of an octave (counted from A) that are black keys:
/// A#, C#, D#, F# and G#.
pub open spec fn is_black_note(note: int) -> bool {
    note == 1 || note == 4 || note == 6 || note == 9 || note == 11
}

/// Colour of the key with the given 0-based index.
pub open spec fn colour_of_key(key: int) -> KeyColour {
    if is_black_note(key % 12) {
        KeyColour::Black
    } else {
        KeyColour::White
    }
}

/// Slot that a rounded key position falls into, among `num_keys` slots.
/// Key numbers are 1-based, slots 0-based; a key number below 1 or above
/// `num_keys` has no slot.
pub open spec fn slot_of_key(key: int, num_keys: int) -> Option<int> {
    if 1 <= key <= num_keys {
        Some(key - 1)
    } else {
        None
    }
}

/// The number of keys, and so of output slots, that the pipeline runs with.
pub fn num_keys() -> (n: usize)
    ensures
        n == NUM_KEYS,
{
    NUM_KEYS
}

/// Note of the key with the given 0-based index. The three keys below the
/// first C (A0, A#0, B0) form a short octave of their own; from C1 upwards
/// the notes repeat every twelve keys.
fn note_of_key_index(key_index: usize) -> (note: usize)
    ensures
        note == key_index % 12,
{
    let note_index: usize = if key_index < 3 {
        key_index
    } else {
        (key_index - 3) % OCTAVE + 3
    };
    note_index % OCTAVE
}

/// Note index (0 for A up to 11 for G#) of a 1-based key number.
pub fn key_number_to_index(key_number: usize) -> (note_index: usize)
    requires
        key_number >= 1,
    ensures
        note_index == note_of_key_number(key_number as int),
        note_index < 12,
{
    note_of_key_index(key_number - 1)
}

/// Colour of the key with the given 0-based index.
pub fn key_colour(key: usize) -> (colour: KeyColour)
    ensures
        colour == colour_of_key(key as int),
{
    let note: usize = note_of_key_index(key);
    if note == 1 || note == 4 || note == 6 || note == 9 || note == 11 {
        KeyColour::Black
    } else {
        KeyColour::White
    }
}

/// Turns the rounded key position of a spectral bin into the slot that
/// accumulates its energy. Positions that round to a key below the first
/// or above the last (including everything the rounding saturates to)
/// are dropped: the result is `None`, never a wrapped index. A slot that
/// is returned always lies inside the row of `num_keys` slots.
pub fn key_slot(key: i64, num_keys: usize) -> (slot: Option<usize>)
    ensures
        match slot {
            Some(index) => slot_of_key(key as int, num_keys as int) == Some(index as int),
            None => slot_of_key(key as int, num_keys as int).is_none(),
        },
        slot matches Some(index) ==> index < num_keys,
{
    if key < 1 {
        return None;
    }
    let index: u64 = (key - 1) as u64;
    if index < num_keys as u64 {
        Some(index as usize)
    } else {
        None
    }
}

} // verus!
