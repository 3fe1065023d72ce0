//! Tests of the low-level x64 128-bit hashing state against the
//! reference implementation.

use std::io::Cursor;

use murmur3_stream::seed::Seedable;
use murmur3_stream::state::State;
use murmur3_stream::state::State64x128;

#[test]
fn it_hashes_a_single_block() {
    let data = b"meeeeeeooooowwww";

    let expected_hash = murmur3::murmur3_x64_128(&mut Cursor::new(&data), 69).unwrap();

    let mut h = State64x128::from_seed(69);
    h.push_block(&data[..]);
    assert_eq!(h.finish(), expected_hash);
}

#[test]
fn it_hashes_two_blocks() {
    let data = b"nyyyyyyyyyyyyyyyyyyyyyyyyyyyyyan";

    let expected_hash = murmur3::murmur3_x64_128(&mut Cursor::new(&data), 69).unwrap();

    let mut h = State64x128::from_seed(69);
    h.push_block(&data[0..16]);
    h.push_block(&data[16..32]);
    assert_eq!(h.finish(), expected_hash);
}

#[test]
fn it_hashes_empty() {
    let data = b"";

    let expected_hash = murmur3::murmur3_x64_128(&mut Cursor::new(&data), 69).unwrap();

    let h = State64x128::from_seed(69);
    assert_eq!(h.finish(), expected_hash);
}

#[test]
fn it_hashes_a_tail() {
    let data = b"foobar";

    let expected_hash = murmur3::murmur3_x64_128(&mut Cursor::new(&data), 69).unwrap();

    let mut h = State64x128::from_seed(69);
    h.push_tail(&data[..]);
    assert_eq!(h.finish(), expected_hash);
}

#[test]
fn it_hashes_body_and_tail() {
    let data = b"This text is a bit longer and not aligned to 16 bytes.";

    let expected_hash = murmur3::murmur3_x64_128(&mut Cursor::new(&data), 69).unwrap();

    let mut h = State64x128::from_seed(69);
    h.push_block(&data[0..16]);
    h.push_block(&data[16..32]);
    h.push_block(&data[32..48]);
    h.push_tail(&data[48..54]);
    assert_eq!(h.finish(), expected_hash);
}
