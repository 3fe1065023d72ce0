//! Behavioral properties: chunk-boundary independence, residual
//! tracking, seed handling, and reference digests at the hasher level.

use std::io::Cursor;

use murmur3_stream::chunked::Chunked;
use murmur3_stream::hash;
use murmur3_stream::hasher::Hasher;
use murmur3_stream::io::ReadHasher;
use murmur3_stream::io::WriteHasher;
use murmur3_stream::seed::Seedable;
use murmur3_stream::Murmur3x64x128;

#[test]
fn it_is_chunk_boundary_independent() {
    let data = b"This text is a bit longer and not aligned to 16 bytes.";
    let whole = hash(42, data);

    for cut in 0..=data.len() {
        let mut h = Murmur3x64x128::from_seed(42);
        h.update(&data[..cut]);
        h.update(&data[cut..]);
        assert_eq!(h.finish(), whole);
    }
}

#[test]
fn it_hashes_one_byte_at_a_time() {
    let data = b"twenty-five bytes of data";
    assert_eq!(data.len(), 25);

    let mut h = Murmur3x64x128::from_seed(3);
    for b in data.iter() {
        h.update(&[*b]);
    }
    assert_eq!(h.finish(), hash(3, data));
}

#[test]
fn it_tracks_the_residual_modulo_block_size() {
    let data = b"twenty-five bytes of data";
    let mut chunked = Chunked::default();
    let mut fed: Vec<u8> = Vec::new();
    let mut emitted: Vec<u8> = Vec::new();

    for b in data.iter() {
        let mut it = chunked.next(&[*b]);
        while let Some(blk) = it.next() {
            assert_eq!(blk.len(), 16);
            emitted.extend_from_slice(&blk);
        }
        fed.push(*b);
        let aligned = fed.len() - fed.len() % 16;
        assert_eq!(chunked.remainder(), &fed[aligned..]);
        assert_eq!(&emitted[..], &fed[..aligned]);
    }
}

#[test]
fn it_splices_residual_into_the_first_block() {
    let mut chunked = Chunked::default();

    assert!(chunked.next(&[1]).next().is_none());
    assert_eq!(chunked.remainder(), &[1u8][..]);

    let mut it = chunked.next(&[2, 3, 4, 5, 6, 7, 8, 9, 10, 11, 12, 13, 14, 15, 16, 17, 18]);
    let first = it.next().unwrap();
    assert_eq!(first, vec![1, 2, 3, 4, 5, 6, 7, 8, 9, 10, 11, 12, 13, 14, 15, 16]);
    assert!(it.next().is_none());
    assert_eq!(chunked.remainder(), &[17u8, 18][..]);
}

#[test]
fn it_ignores_empty_input() {
    let mut chunked = Chunked::default();
    chunked.next(&[9, 9]);

    let mut it = chunked.next(&[]);
    assert!(!it.has_next());
    assert!(it.next().is_none());
    assert_eq!(chunked.remainder(), &[9u8, 9][..]);

    let mut h = Murmur3x64x128::from_seed(11);
    h.update(b"payload");
    h.update(b"");
    assert_eq!(h.finish(), hash(11, b"payload"));
}

#[test]
fn it_reproduces_and_distinguishes_seeds() {
    let data = b"fixed payload";
    assert_eq!(hash(1, data), hash(1, data));
    assert_ne!(hash(1, data), hash(2, data));
}

#[test]
fn it_matches_reference_for_empty_input() {
    for seed in [0u32, 69, u32::MAX] {
        let expected = murmur3::murmur3_x64_128(&mut Cursor::new(b""), seed).unwrap();
        assert_eq!(hash(seed, b""), expected);
    }
}

#[test]
fn it_matches_reference_for_a_single_block() {
    let data = b"meeeeeeooooowwww";
    let expected = murmur3::murmur3_x64_128(&mut Cursor::new(&data), 69).unwrap();
    assert_eq!(hash(69, data), expected);
}

#[test]
fn it_matches_reference_for_tail_only_input() {
    let data = b"foobar";
    let expected = murmur3::murmur3_x64_128(&mut Cursor::new(&data), 69).unwrap();
    assert_eq!(hash(69, data), expected);
}

#[test]
fn it_matches_reference_for_multi_block_with_tail() {
    let data = b"This text is a bit longer and not aligned to 16 bytes.";
    assert_eq!(data.len(), 54);
    let expected = murmur3::murmur3_x64_128(&mut Cursor::new(&data), 69).unwrap();
    assert_eq!(hash(69, data), expected);
}

#[test]
fn it_round_trips_hashers_through_stream_wrappers() {
    let mut hasher = Murmur3x64x128::from_seed(5);
    hasher.update(b"abc");

    let rh = ReadHasher::new(Cursor::new(vec![0u8; 4]), hasher);
    let mut hasher = rh.into_hasher();
    hasher.update(b"def");

    let wh = WriteHasher::new(Vec::<u8>::new(), hasher);
    assert_eq!(wh.hash(), hash(5, b"abcdef"));
}
