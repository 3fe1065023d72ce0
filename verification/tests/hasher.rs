//! Tests of the streaming hasher facade against the reference
//! implementation.

use std::io::Cursor;

use murmur3_stream::hash;
use murmur3_stream::hasher::Hasher;
use murmur3_stream::seed::Seedable;
use murmur3_stream::Murmur3x64x128;

fn test_with_data(data: &[u8]) {
    let expected = murmur3::murmur3_x64_128(&mut Cursor::new(data), 0).unwrap();
    let got = hash(0, data);
    assert_eq!(got, expected);
}

#[test]
fn it_hashes_short_data() {
    test_with_data(b"Hello World");
}

#[test]
fn it_hashes_long_data() {
    let mut data = vec![];
    while data.len() < 1024 {
        data.extend(b"Hello World!");
    }

    test_with_data(&data)
}

#[test]
fn it_hashes_in_multiple_steps() {
    let mut n = 0;
    let mut hasher = Murmur3x64x128::from_seed(0);
    let data = b"Got anymore test strings?";
    let mut expected_data = vec![];

    while n < 1024 {
        hasher.update(data);
        n += data.len();
        expected_data.extend(data);
    }

    let expected = murmur3::murmur3_x64_128(&mut Cursor::new(expected_data), 0).unwrap();
    assert_eq!(hasher.finish(), expected);
}
