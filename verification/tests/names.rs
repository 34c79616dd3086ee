use bytes::Bytes;
use gitlite::error::GitError;
use gitlite::numtext::{decimal_bytes, parse_unsigned};
use gitlite::sha::Sha;

#[test]
fn sha_text_must_be_forty_bytes() {
    let s = Sha::from_str("6768033e216468247bd031a0a2d9876d79818f8f").unwrap();
    assert_eq!(s.as_bytes(), b"6768033e216468247bd031a0a2d9876d79818f8f");
    assert!(matches!(Sha::from_str("abc"), Err(GitError::UnexpectedShaLength)));
    assert!(matches!(Sha::from_str(""), Err(GitError::UnexpectedShaLength)));
    // forty bytes that are not hexadecimal are still taken
    assert!(Sha::from_str("zzzzzzzzzzzzzzzzzzzzzzzzzzzzzzzzzzzzzzzz").is_ok());
    // twenty two-byte characters are forty bytes
    assert!(Sha::from_str("éééééééééééééééééééé").is_ok());
    assert!(matches!(Sha::new("é".repeat(21)), Err(GitError::UnexpectedShaLength)));
}

#[test]
fn sha_of_raw_bytes_is_hex_of_their_sha1() {
    let s = Sha::try_from_chunk(&[0u8; 20]).unwrap();
    assert_eq!(s.as_str(), "6768033e216468247bd031a0a2d9876d79818f8f");
    let raw: Vec<u8> = (0u8..20).collect();
    let s = Sha::try_from_chunk(&raw).unwrap();
    assert_eq!(s.as_str(), "602c63d2f3d13ca3206cdf204cde24e7d8f4266c");
    assert!(matches!(Sha::try_from_chunk(&[0u8; 19]), Err(GitError::ShaChunkLength)));
    assert!(matches!(Sha::try_from_chunk(&[0u8; 21]), Err(GitError::ShaChunkLength)));
}

#[test]
fn sha_take_from_consumes_twenty_bytes() {
    let mut source = Bytes::from(vec![0u8; 25]);
    let s = Sha::take_from(&mut source).unwrap();
    assert_eq!(s.as_str(), "6768033e216468247bd031a0a2d9876d79818f8f");
    assert_eq!(source.len(), 5);
    assert!(matches!(Sha::take_from(&mut source), Err(GitError::NotEnoughData)));
    assert_eq!(source.len(), 5);
}

#[test]
fn sha_path_splits_after_two_bytes() {
    let s = Sha::from_str("6768033e216468247bd031a0a2d9876d79818f8f").unwrap();
    assert_eq!(s.path(), ".git/objects/67/68033e216468247bd031a0a2d9876d79818f8f");
}

#[test]
fn sha_path_follows_path_join() {
    let s = Sha::from_str("/b68033e216468247bd031a0a2d9876d79818f8f").unwrap();
    assert_eq!(s.path(), "/b/68033e216468247bd031a0a2d9876d79818f8f");
    let s = Sha::from_str("a//68033e216468247bd031a0a2d9876d79818f8").unwrap();
    assert_eq!(s.path(), "/68033e216468247bd031a0a2d9876d79818f8");
    let s = Sha::from_str("a/b68033e216468247bd031a0a2d9876d79818f8").unwrap();
    assert_eq!(s.path(), ".git/objects/a/b68033e216468247bd031a0a2d9876d79818f8");
}

#[test]
fn decimal_text_of_sizes() {
    assert_eq!(decimal_bytes(0), b"0".to_vec());
    assert_eq!(decimal_bytes(7), b"7".to_vec());
    assert_eq!(decimal_bytes(1234567890), b"1234567890".to_vec());
    assert_eq!(decimal_bytes(usize::MAX), usize::MAX.to_string().into_bytes());
}

#[test]
fn unsigned_numbers_are_parsed_like_std() {
    assert_eq!(parse_unsigned(b"42", 10), Some(42));
    assert_eq!(parse_unsigned(b"+42", 10), Some(42));
    assert_eq!(parse_unsigned(b"007", 10), Some(7));
    assert_eq!(parse_unsigned(b"", 10), None);
    assert_eq!(parse_unsigned(b"+", 10), None);
    assert_eq!(parse_unsigned(b"-1", 10), None);
    assert_eq!(parse_unsigned(b"1 ", 10), None);
    assert_eq!(parse_unsigned(b"ff", 10), None);
    assert_eq!(parse_unsigned(usize::MAX.to_string().as_bytes(), 10), Some(usize::MAX));
    assert_eq!(parse_unsigned(b"99999999999999999999999", 10), None);
    assert_eq!(parse_unsigned(b"00ff", 16), Some(255));
    assert_eq!(parse_unsigned(b"FFFF", 16), Some(65535));
    assert_eq!(parse_unsigned(b"+aB", 16), Some(171));
    assert_eq!(parse_unsigned(b"0g", 16), None);
    for s in ["0", "12", "+3", "x", "", "18446744073709551616"] {
        assert_eq!(parse_unsigned(s.as_bytes(), 10), s.parse::<usize>().ok());
        assert_eq!(parse_unsigned(s.as_bytes(), 16), usize::from_str_radix(s, 16).ok());
    }
}
