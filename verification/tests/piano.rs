use piano_spectrum::piano::{key_colour, key_number_to_index, key_slot, num_keys, KeyColour, NUM_KEYS};

#[test]
fn a_piano_has_88_keys() {
    assert_eq!(NUM_KEYS, 88);
    assert_eq!(num_keys(), 88);
}

#[test]
fn note_index_of_the_lowest_keys() {
    assert_eq!(key_number_to_index(1), 0);
    assert_eq!(key_number_to_index(2), 1);
    assert_eq!(key_number_to_index(3), 2);
    assert_eq!(key_number_to_index(4), 3);
}

#[test]
fn note_index_repeats_every_octave() {
    assert_eq!(key_number_to_index(12), 11);
    assert_eq!(key_number_to_index(13), 0);
    assert_eq!(key_number_to_index(16), 3);
    assert_eq!(key_number_to_index(49), 0);
    assert_eq!(key_number_to_index(88), 3);
    for key_number in 1..=300usize {
        assert_eq!(key_number_to_index(key_number), (key_number - 1) % 12);
        assert_eq!(key_number_to_index(key_number), key_number_to_index(key_number + 12));
    }
}

#[test]
fn note_index_of_the_largest_key_number() {
    assert_eq!(key_number_to_index(usize::MAX), (usize::MAX - 1) % 12);
}

#[test]
fn colours_of_the_lowest_octave() {
    let expected = [
        KeyColour::White, // A0
        KeyColour::Black, // A#0
        KeyColour::White, // B0
        KeyColour::White, // C1
        KeyColour::Black, // C#1
        KeyColour::White, // D1
        KeyColour::Black, // D#1
        KeyColour::White, // E1
        KeyColour::White, // F1
        KeyColour::Black, // F#1
        KeyColour::White, // G1
        KeyColour::Black, // G#1
        KeyColour::White, // A1
    ];
    for (key, colour) in expected.iter().enumerate() {
        assert_eq!(key_colour(key), *colour, "key {}", key);
    }
}

#[test]
fn colour_of_named_keys() {
    assert_eq!(key_colour(39), KeyColour::White); // middle C
    assert_eq!(key_colour(48), KeyColour::White); // A4
    assert_eq!(key_colour(49), KeyColour::Black); // A#4
    assert_eq!(key_colour(87), KeyColour::White); // C8
}

#[test]
fn a_piano_has_52_white_and_36_black_keys() {
    let white = (0..NUM_KEYS).filter(|key| key_colour(*key) == KeyColour::White).count();
    let black = (0..NUM_KEYS).filter(|key| key_colour(*key) == KeyColour::Black).count();
    assert_eq!(white, 52);
    assert_eq!(black, 36);
}

#[test]
fn colour_agrees_with_note_index() {
    for key in 0..200usize {
        let note = key_number_to_index(key + 1);
        let black = [1usize, 4, 6, 9, 11].contains(&note);
        assert_eq!(key_colour(key) == KeyColour::Black, black);
    }
}

#[test]
fn colour_of_the_largest_index() {
    let note = usize::MAX % 12;
    let black = [1usize, 4, 6, 9, 11].contains(&note);
    assert_eq!(key_colour(usize::MAX) == KeyColour::Black, black);
}

#[test]
fn slot_of_keys_on_the_keyboard() {
    assert_eq!(key_slot(1, 88), Some(0));
    assert_eq!(key_slot(33, 88), Some(32));
    assert_eq!(key_slot(49, 88), Some(48));
    assert_eq!(key_slot(88, 88), Some(87));
}

#[test]
fn key_zero_has_no_slot() {
    assert_eq!(key_slot(0, 88), None);
}

#[test]
fn keys_off_the_keyboard_have_no_slot() {
    assert_eq!(key_slot(89, 88), None);
    assert_eq!(key_slot(-1, 88), None);
    assert_eq!(key_slot(i64::MIN, 88), None);
    assert_eq!(key_slot(i64::MAX, 88), None);
    assert_eq!(key_slot(1, 0), None);
}

#[test]
fn slot_is_always_inside_the_row() {
    for num_keys in [0usize, 1, 12, 88, 128] {
        for key in -200i64..400 {
            match key_slot(key, num_keys) {
                Some(index) => {
                    assert!(index < num_keys);
                    assert_eq!(index as i64, key - 1);
                }
                None => assert!(key < 1 || key > num_keys as i64),
            }
        }
    }
}

#[test]
fn slot_of_every_frequency_in_the_audio_range_is_inside_the_row() {
    let mut hit = vec![false; NUM_KEYS];
    let mut frequency = 1.0f32;
    while frequency < 22_050.0 {
        let position = 12.0 * (frequency / 440.0).log2() + 49.0;
        if let Some(index) = key_slot(position.round() as i64, NUM_KEYS) {
            assert!(index < NUM_KEYS);
            hit[index] = true;
        }
        frequency *= 1.001;
    }
    assert!(hit.iter().all(|h| *h));
}

#[test]
fn slot_of_the_regression_frequencies() {
    let lowest = (12.0 * (27.5f32 / 440.0).log2() + 49.0).round() as i64;
    assert_eq!(lowest, 1);
    assert_eq!(key_slot(lowest, NUM_KEYS), Some(0));
    let mistuned = (12.0 * (170.0f32 / 440.0).log2() + 49.0).round() as i64;
    assert_eq!(mistuned, 33);
    assert_eq!(key_slot(mistuned, NUM_KEYS), Some(32));
}

#[test]
fn slot_of_frequencies_that_have_no_logarithm() {
    let zero = (12.0 * (0.0f32 / 440.0).log2() + 49.0).round() as i64;
    assert_eq!(key_slot(zero, NUM_KEYS), None);
    let negative = (12.0 * (-100.0f32 / 440.0).log2() + 49.0).round() as i64;
    assert_eq!(key_slot(negative, NUM_KEYS), None);
}
