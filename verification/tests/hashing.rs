use marvin32::hash;
use marvin32::hash_streaming;
use marvin32::FatalSource;
use marvin32::FlakySource;
use marvin32::IoError;
use marvin32::Marvin32;
use marvin32::SliceSource;

const TEST: &'static [u8] = b"A\0b\0c\0d\0e\0f\0g\0"; // "Abcdefg" in UTF-16-LE
const SEED: u64 = 0x5D70D359C498B3F8;

#[test]
fn unit_test() {
    assert_eq!(TEST.len(), 14);
    let hash = hash(TEST, 0x5D70D359C498B3F8);
    assert_eq!(hash, 0xba627c81, "mismatch in hash");
}

#[test]
fn unit_test_streaming() {
    let mut source = SliceSource::new(TEST.to_vec());
    let hash = hash_streaming(&mut source, 0x5D70D359C498B3F8).unwrap();
    assert_eq!(hash, 0xba627c81, "mismatch in hash");
}

#[test]
fn unit_test_hasher() {
    let mut hash = Marvin32::new(0x5D70D359C498B3F8);
    hash.push(TEST);
    assert_eq!(hash.finish(), 0xba627c81, "mismatch in hash");
}

#[test]
fn deterministic() {
    let input = b"determinism check input";
    assert_eq!(hash(input, SEED), hash(input, SEED));
    assert_eq!(hash(input, 7), hash(input, 7));
}

#[test]
fn seed_sensitivity() {
    let input = b"fixed non-empty input";
    let seeds: [u64; 5] = [0, 1, 2, SEED, u64::MAX];
    for i in 0..seeds.len() {
        for j in 0..seeds.len() {
            if i != j {
                assert_ne!(hash(input, seeds[i]), hash(input, seeds[j]));
            }
        }
    }
}

#[test]
fn empty_input() {
    // Remainder length 0: only the 0x80 sentinel word and the closing
    // zero word are mixed.
    assert_eq!(hash(b"", 0), 0x92805AAE);
    assert_eq!(hash(b"", SEED), hash(b"", SEED));
    let mut source = SliceSource::new(Vec::new());
    assert_eq!(hash_streaming(&mut source, 0).unwrap(), hash(b"", 0));
    let hasher = Marvin32::new(0);
    assert_eq!(hasher.finish(), hash(b"", 0) as u64);
}

#[test]
fn equivalence_all_entry_points() {
    let inputs: [&[u8]; 6] = [
        b"",
        b"a",
        b"abc",
        b"abcd",
        b"abcdefgh-ijk",
        b"a longer input whose length is not a multiple of four!",
    ];
    for input in inputs.iter() {
        let expected = hash(input, SEED);
        let mut source = SliceSource::new(input.to_vec());
        assert_eq!(hash_streaming(&mut source, SEED).unwrap(), expected);
        let mut hasher = Marvin32::new(SEED);
        hasher.push(input);
        assert_eq!(hasher.finish(), expected as u64);
    }
}

#[test]
fn incremental_chunking_independence() {
    let input = b"pushed in pieces that straddle word boundaries unevenly";
    let expected = hash(input, SEED) as u64;

    // One byte at a time.
    let mut one = Marvin32::new(SEED);
    for b in input.iter() {
        one.push(&[*b]);
    }
    assert_eq!(one.finish(), expected);

    // Uneven pieces, some empty.
    let mut uneven = Marvin32::new(SEED);
    uneven.push(&input[..3]);
    uneven.push(&[]);
    uneven.push(&input[3..10]);
    uneven.push(&input[10..11]);
    uneven.push(&input[11..32]);
    uneven.push(&[]);
    uneven.push(&input[32..]);
    assert_eq!(uneven.finish(), expected);

    // Exact word boundaries.
    let mut aligned = Marvin32::new(SEED);
    let mut i = 0;
    while i + 4 <= input.len() {
        aligned.push(&input[i..i + 4]);
        i += 4;
    }
    aligned.push(&input[i..]);
    assert_eq!(aligned.finish(), expected);
}

#[test]
fn streaming_fragmentation_independence() {
    let input = b"stream me in fragments of every size";
    let expected = hash(input, SEED);
    for step in [1usize, 2, 3, 4, 5, 7, 16, usize::MAX] {
        let mut source = SliceSource::with_step(input.to_vec(), step);
        assert_eq!(hash_streaming(&mut source, SEED).unwrap(), expected);
    }
}

#[test]
fn streaming_retries_interruptions() {
    let input = b"every other read of this source is interrupted";
    let mut source = FlakySource::new(input.to_vec());
    assert_eq!(hash_streaming(&mut source, SEED).unwrap(), hash(input, SEED));
    let mut flaky_test_vector = FlakySource::new(TEST.to_vec());
    assert_eq!(
        hash_streaming(&mut flaky_test_vector, 0x5D70D359C498B3F8).unwrap(),
        0xba627c81
    );
}

#[test]
fn streaming_fatal_error_aborts() {
    // The source yields all its bytes and then fails instead of ending:
    // no hash value is produced at all.
    let mut source = FatalSource::new(b"bytes before the failure".to_vec());
    assert_eq!(hash_streaming(&mut source, SEED), Err(IoError::Fatal));
    let mut empty = FatalSource::new(Vec::new());
    assert_eq!(hash_streaming(&mut empty, SEED), Err(IoError::Fatal));
}

#[test]
fn finish_is_idempotent_and_resumable() {
    let mut hasher = Marvin32::new(SEED);
    hasher.push(b"first ins");
    let once = hasher.finish();
    let twice = hasher.finish();
    assert_eq!(once, twice);
    assert_eq!(once, hash(b"first ins", SEED) as u64);

    // Pushing after finish continues as if finish had never been called.
    hasher.push(b"tallment");
    assert_eq!(hasher.finish(), hash(b"first installment", SEED) as u64);
    assert_eq!(hasher.finish(), hash(b"first installment", SEED) as u64);
}

#[test]
fn known_word_boundary_cases() {
    // Exact multiples of four bytes leave an empty remainder; one to
    // three trailing bytes are folded under the sentinel. Neighbouring
    // lengths must not collide for these inputs.
    let input = b"0123456789abcdef";
    let mut seen = Vec::new();
    for n in 12..=16 {
        let h = hash(&input[..n], SEED);
        assert!(!seen.contains(&h));
        seen.push(h);
    }
}
