use piano_spectrum::ring::{SampleRing, MAX_CAPACITY, SILENCE};

fn snapshot_of(ring: &SampleRing, count: usize) -> Vec<u32> {
    let mut out = vec![0xDEAD_BEEFu32; count];
    ring.snapshot(&mut out);
    out
}

#[test]
fn new_ring_is_empty() {
    let ring = SampleRing::new(8);
    assert_eq!(ring.len(), 0);
    assert_eq!(ring.capacity(), 8);
}

#[test]
fn snapshot_of_fresh_ring_is_silence() {
    let ring = SampleRing::new(4);
    assert_eq!(snapshot_of(&ring, 4), vec![SILENCE; 4]);
}

#[test]
fn snapshot_pads_with_silence_after_the_samples() {
    let mut ring = SampleRing::new(8);
    ring.write(&[1, 2, 3]);
    assert_eq!(ring.len(), 3);
    assert_eq!(snapshot_of(&ring, 8), vec![1, 2, 3, 0, 0, 0, 0, 0]);
}

#[test]
fn snapshot_shorter_than_contents_takes_the_newest() {
    let mut ring = SampleRing::new(8);
    ring.write(&[1, 2, 3, 4, 5]);
    assert_eq!(snapshot_of(&ring, 2), vec![4, 5]);
    assert_eq!(snapshot_of(&ring, 5), vec![1, 2, 3, 4, 5]);
}

#[test]
fn snapshot_longer_than_capacity_pads() {
    let mut ring = SampleRing::new(2);
    ring.write(&[7, 8, 9]);
    assert_eq!(snapshot_of(&ring, 4), vec![8, 9, 0, 0]);
}

#[test]
fn snapshot_of_no_samples_is_empty() {
    let mut ring = SampleRing::new(2);
    ring.write(&[7, 8, 9]);
    assert_eq!(snapshot_of(&ring, 0), Vec::<u32>::new());
}

#[test]
fn snapshot_leaves_the_ring_unchanged() {
    let mut ring = SampleRing::new(4);
    ring.write(&[1, 2, 3]);
    let first = snapshot_of(&ring, 4);
    let second = snapshot_of(&ring, 4);
    assert_eq!(first, second);
    assert_eq!(ring.len(), 3);
}

#[test]
fn snapshot_after_overflow_holds_the_newest_samples() {
    let mut ring = SampleRing::new(4);
    ring.write(&[1, 2, 3]);
    ring.write(&[4, 5, 6]);
    assert_eq!(ring.len(), 4);
    assert_eq!(snapshot_of(&ring, 4), vec![3, 4, 5, 6]);
}

#[test]
fn one_write_longer_than_capacity_keeps_its_tail() {
    let mut ring = SampleRing::new(4);
    ring.write(&[10, 11]);
    ring.write(&[1, 2, 3, 4, 5, 6, 7, 8, 9]);
    assert_eq!(snapshot_of(&ring, 4), vec![6, 7, 8, 9]);
}

#[test]
fn exactly_capacity_samples_fill_the_ring() {
    let mut ring = SampleRing::new(4);
    ring.write(&[1, 2, 3, 4]);
    assert_eq!(ring.len(), 4);
    assert_eq!(snapshot_of(&ring, 4), vec![1, 2, 3, 4]);
}

#[test]
fn empty_write_changes_nothing() {
    let mut ring = SampleRing::new(4);
    ring.write(&[1, 2]);
    ring.write(&[]);
    assert_eq!(ring.len(), 2);
    assert_eq!(snapshot_of(&ring, 2), vec![1, 2]);
}

#[test]
fn ring_of_one_sample_holds_the_last() {
    let mut ring = SampleRing::new(1);
    ring.write(&[5]);
    ring.write(&[6, 7]);
    assert_eq!(ring.len(), 1);
    assert_eq!(ring.capacity(), 1);
    assert_eq!(snapshot_of(&ring, 1), vec![7]);
}

#[test]
fn splitting_a_write_makes_no_difference() {
    let samples: Vec<u32> = (1..=37).collect();
    let mut whole = SampleRing::new(16);
    whole.write(&samples);
    let mut pieces = SampleRing::new(16);
    for chunk in samples.chunks(5) {
        pieces.write(chunk);
    }
    assert_eq!(snapshot_of(&whole, 16), snapshot_of(&pieces, 16));
    assert_eq!(snapshot_of(&whole, 16), (22..=37).collect::<Vec<u32>>());
}

#[test]
fn overwrite_law_on_a_long_stream() {
    let capacity = 8192;
    let mut ring = SampleRing::new(capacity);
    let mut next: u32 = 0;
    for _ in 0..40 {
        let chunk: Vec<u32> = (next..next + 1000).collect();
        ring.write(&chunk);
        next += 1000;
    }
    let out = snapshot_of(&ring, capacity);
    let expected: Vec<u32> = (next - capacity as u32..next).collect();
    assert_eq!(out, expected);
}

#[test]
fn samples_pass_through_bit_for_bit() {
    let samples = [0.0f32, -0.0, 1.0, -1.0, 0.25, f32::MIN_POSITIVE, -0.333];
    let words: Vec<u32> = samples.iter().map(|s| s.to_bits()).collect();
    let mut ring = SampleRing::new(8);
    ring.write(&words);
    let out = snapshot_of(&ring, 8);
    let back: Vec<f32> = out.iter().map(|w| f32::from_bits(*w)).collect();
    assert_eq!(&back[..7], &samples[..]);
    assert_eq!(back[7].to_bits(), 0.0f32.to_bits());
    assert_eq!(f32::from_bits(SILENCE), 0.0);
}

#[test]
fn largest_capacity_is_an_eighth_of_the_address_space() {
    assert_eq!(MAX_CAPACITY, usize::MAX / 8);
}
