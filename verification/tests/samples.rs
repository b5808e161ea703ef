use synth::samples::store_sample;

#[test]
fn store_writes_and_advances() {
    let mut samples = vec![0.0f32; 3];
    let next = store_sample(&mut samples, 0, 0.5);
    assert_eq!(next, 1);
    assert_eq!(samples, vec![0.5, 0.0, 0.0]);
}

#[test]
fn store_wraps_after_last() {
    let mut samples = vec![0u8; 3];
    let next = store_sample(&mut samples, 2, 7);
    assert_eq!(next, 0);
    assert_eq!(samples, vec![0, 0, 7]);
}

#[test]
fn ring_keeps_most_recent_samples() {
    let mut samples = vec![0i32; 4];
    let mut index = 1;
    for value in 1..=6 {
        index = store_sample(&mut samples, index, value);
    }
    // Six writes from slot 1: slots 1,2,3,0,1,2.
    assert_eq!(index, 3);
    assert_eq!(samples, vec![4, 5, 6, 3]);
}

#[test]
fn one_slot_ring() {
    let mut samples = vec![0.0f32];
    assert_eq!(store_sample(&mut samples, 0, 1.0), 0);
    assert_eq!(store_sample(&mut samples, 0, 2.0), 0);
    assert_eq!(samples, vec![2.0]);
}

#[test]
fn ring_after_many_rounds() {
    let len = 5;
    let mut samples = vec![0u32; len];
    let mut index = 2;
    let count = 23u32;
    for value in 1..=count {
        index = store_sample(&mut samples, index, value);
    }
    // The write position is the start plus the number of stores, modulo the length.
    assert_eq!(index, (2 + count as usize) % len);
    // Each slot holds the last value stored in it; the oldest is at `index`.
    for offset in 0..len {
        let slot = (index + offset) % len;
        assert_eq!(samples[slot], count - len as u32 + 1 + offset as u32);
    }
}
