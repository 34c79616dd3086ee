use bytes::Bytes;
use gitlite::clone::pack::item::{read_from, PackKind};
use gitlite::clone::pack::GitPack;
use gitlite::clone::refs::GitRef;
use gitlite::clone::{pack_request_body, parse_refs};
use gitlite::codec::zip;
use gitlite::error::GitError;
use gitlite::object::any::decode;
use gitlite::object::kind::Kind;

const SHA_A: &str = "6768033e216468247bd031a0a2d9876d79818f8f";
const SHA_B: &str = "602c63d2f3d13ca3206cdf204cde24e7d8f4266c";
const HELLO_ZLIB: [u8; 13] = [120, 156, 203, 72, 205, 201, 201, 7, 0, 6, 44, 2, 21];

#[test]
fn ref_line_reads_size_hash_and_name() {
    let line = format!("003f{} refs/heads/main", SHA_A);
    let r = GitRef::from_str(&line).unwrap();
    assert_eq!(r.size, 0x3f);
    assert_eq!(r.sha.as_str(), SHA_A);
    assert_eq!(r.name, "refs/heads/main");
    let r = GitRef::from_str(&format!("+0Ff{} HEAD with space", SHA_B)).unwrap();
    assert_eq!(r.size, 0xff);
    assert_eq!(r.name, "HEAD with space");
}

#[test]
fn ref_line_errors() {
    assert!(matches!(GitRef::from_str("no-space-at-all"), Err(GitError::RefFormat)));
    assert!(matches!(GitRef::from_str("003fabc refs/x"), Err(GitError::UnexpectedShaLength)));
    assert!(matches!(GitRef::from_str(&format!("00x1{} r", SHA_A)), Err(GitError::RefSize)));
    // the hash text is checked before the length prefix
    assert!(matches!(GitRef::from_str("zzzzabc r"), Err(GitError::UnexpectedShaLength)));
}

#[test]
fn refs_are_read_line_by_line() {
    let text = format!(
        "001e# service=git-upload-pack\n003f{} HEAD\r\n003f{} refs/heads/main\n0000",
        SHA_A, SHA_B
    );
    let refs = parse_refs(&text);
    assert_eq!(refs.len(), 2);
    assert_eq!(refs[0].name, "HEAD");
    assert_eq!(refs[0].sha.as_str(), SHA_A);
    assert_eq!(refs[1].name, "refs/heads/main");
    assert!(parse_refs("").is_empty());
    let trailing = parse_refs(&format!("0000{} last\r", SHA_A));
    assert_eq!(trailing[0].name, "last\r");
}

#[test]
fn pack_request_lists_wants_then_done() {
    let refs = parse_refs(&format!("003f{} HEAD\n003f{} main\n", SHA_A, SHA_B));
    let body = pack_request_body(&refs);
    let expected = format!("0032want {}\n0032want {}\n00000009done\n", SHA_A, SHA_B);
    assert_eq!(&body[..], expected.as_bytes());
    assert_eq!(&pack_request_body(&[])[..], b"00000009done\n");
}

fn entry(desc: &[u8]) -> Vec<u8> {
    let mut v = desc.to_vec();
    v.extend_from_slice(&HELLO_ZLIB);
    v
}

#[test]
fn pack_entry_descriptor_and_data() {
    let mut bytes = Bytes::from(entry(&[0x35]));
    let it = read_from(&mut bytes).unwrap();
    assert!(matches!(it.desc.kind, PackKind::Object(Kind::Blob)));
    assert_eq!(it.desc.size, u32::from_le(5));
    assert_eq!(it.data, b"hello".to_vec());
    assert!(bytes.is_empty());
    let mut bytes = Bytes::from(entry(&[0x95, 0x0a]));
    let it = read_from(&mut bytes).unwrap();
    assert!(matches!(it.desc.kind, PackKind::Object(Kind::Commit)));
    assert_eq!(it.desc.size, u32::from_le(5 + 10 * 16));
    let mut bytes = Bytes::from(entry(&[0xa0, 0x80, 0x80, 0x81]));
    let it = read_from(&mut bytes).unwrap();
    assert!(matches!(it.desc.kind, PackKind::Object(Kind::Tree)));
    assert_eq!(it.desc.size, u32::from_le(1 << 18));
}

#[test]
fn pack_entry_descriptor_stops_after_four_bytes() {
    let mut v = vec![0xb1, 0xff, 0xff, 0xff];
    v.extend_from_slice(&HELLO_ZLIB);
    let mut bytes = Bytes::from(v);
    let it = read_from(&mut bytes).unwrap();
    assert_eq!(it.desc.size, u32::from_le(1 + 127 * 16 + 127 * 2048 + 127 * 262144));
}

#[test]
fn pack_entry_against_named_base() {
    let mut v = vec![0x75];
    v.extend_from_slice(&[0u8; 20]);
    v.extend_from_slice(&HELLO_ZLIB);
    let mut bytes = Bytes::from(v);
    let it = read_from(&mut bytes).unwrap();
    match it.desc.kind {
        PackKind::Ref(sha) => assert_eq!(sha.as_str(), SHA_A),
        _ => panic!("not a ref delta"),
    }
}

#[test]
fn pack_entry_errors() {
    let mut bytes = Bytes::from(vec![0x95]);
    assert!(matches!(read_from(&mut bytes), Err(GitError::PackEntryTruncated)));
    assert_eq!(bytes.len(), 1);
    let mut bytes = Bytes::from(entry(&[0x65]));
    assert!(matches!(read_from(&mut bytes), Err(GitError::PackEntryUnsupported)));
    assert_eq!(bytes.len(), HELLO_ZLIB.len());
    let mut bytes = Bytes::from(vec![0x75, 1, 2]);
    assert!(matches!(read_from(&mut bytes), Err(GitError::NotEnoughData)));
    let mut bytes = Bytes::from(vec![0x35, 1, 2, 3]);
    assert!(matches!(read_from(&mut bytes), Err(GitError::Decompress)));
}

fn pack(entries: &[Vec<u8>], count: u32) -> Vec<u8> {
    let mut v = b"PACK".to_vec();
    v.extend_from_slice(&2u32.to_be_bytes());
    v.extend_from_slice(&count.to_be_bytes());
    for e in entries {
        v.extend_from_slice(e);
    }
    v.extend_from_slice(&[0u8; 20]);
    v
}

#[test]
fn pack_reads_header_entries_and_checksum() {
    let data = pack(&[entry(&[0x35]), entry(&[0x25])], 2);
    let p = GitPack::try_from_bytes(Bytes::from(data)).unwrap();
    let text = format!("{:?}", p);
    assert!(text.contains("version: 2"));
    assert!(text.contains("count: 2"));
    assert!(text.contains(SHA_A));
}

#[test]
fn pack_errors() {
    assert!(matches!(GitPack::try_from_bytes(Bytes::from(b"PACK".to_vec())), Err(GitError::PackTooShort)));
    let mut bad = pack(&[], 0);
    bad[0] = b'Q';
    assert!(matches!(GitPack::try_from_bytes(Bytes::from(bad)), Err(GitError::PackSignature)));
    let short = b"PACK\0\0\0\x02\0\0\0\0short".to_vec();
    assert!(matches!(GitPack::try_from_bytes(Bytes::from(short)), Err(GitError::PackTooShort)));
    let broken = pack(&[entry(&[0x65])], 1);
    assert!(matches!(GitPack::try_from_bytes(Bytes::from(broken)), Err(GitError::PackEntryUnsupported)));
    assert!(GitPack::try_from_bytes(Bytes::from(pack(&[], 0))).is_ok());
}

#[test]
fn any_object_keeps_body_bytes() {
    let stored: Vec<u8> = vec![120, 156, 75, 202, 201, 79, 82, 48, 101, 200, 72, 205, 201, 201, 7, 0, 25, 170, 4, 9];
    let obj = decode(stored).unwrap();
    assert!(matches!(obj.kind(), Kind::Blob));
    assert_eq!(obj.bytes(), b"hello");
    assert!(matches!(obj.into_tree(), Err(GitError::NotATree)));
    let tree: Vec<u8> = vec![120, 156, 43, 41, 74, 77, 85, 48, 96, 0, 0, 10, 44, 2, 1];
    let t = decode(tree).unwrap().into_tree().unwrap();
    assert!(t.items().is_empty());
    assert!(matches!(decode(vec![1, 2, 3]), Err(GitError::Decompress)));
}

#[test]
fn any_object_header_errors() {
    assert!(matches!(decode(zip(b"blob 5 no nul").unwrap()), Err(GitError::MissingHeaderEnd)));
    assert!(matches!(decode(zip(b"blob5\0x").unwrap()), Err(GitError::MissingKind)));
    assert!(matches!(decode(zip(b"\xff 1\0x").unwrap()), Err(GitError::InvalidUtf8)));
    assert!(matches!(decode(zip(b"tag 1\0x").unwrap()), Err(GitError::UnknownKind)));
    let obj = decode(zip(b"commit whatever\0body").unwrap()).unwrap();
    assert!(matches!(obj.kind(), Kind::Commit));
    assert_eq!(obj.bytes(), b"body");
}

#[test]
fn any_object_and_object_agree_on_kind_and_contents() {
    use_both(b"blob 3\0abc");
    use_both(b"tree 0\0");
}

fn use_both(raw: &[u8]) {
    let stored = zip(raw).unwrap();
    let any = decode(stored.clone()).unwrap();
    let obj = gitlite::object::Object::unpack(&stored).unwrap();
    match (any.kind(), obj.body()) {
        (Kind::Blob, gitlite::object::Body::Blob(b)) => assert_eq!(b.as_bytes(), any.bytes()),
        (Kind::Tree, gitlite::object::Body::Tree(_)) => {}
        _ => panic!("kinds differ"),
    }
}

#[test]
fn pack_entry_descriptor_takes_at_most_four_bytes_then_checks_the_type() {
    let mut bytes = Bytes::from(vec![0xc1, 0xff, 0xff, 0xff, 0xff, 9]);
    assert!(matches!(read_from(&mut bytes), Err(GitError::PackEntryUnsupported)));
    assert_eq!(bytes.len(), 2);
}

#[test]
fn pack_reports_each_entry_with_the_bytes_left() {
    let data = pack(&[entry(&[0x35]), entry(&[0x25]), entry(&[0x65])], 3);
    let (r, lines) = GitPack::read_listing(Bytes::from(data));
    assert!(matches!(r, Err(GitError::PackEntryUnsupported)));
    assert_eq!(lines.len(), 2);
    assert!(matches!(lines[0].0.kind, PackKind::Object(Kind::Blob)));
    assert_eq!(lines[0].0.size, u32::from_le(5));
    assert_eq!(lines[0].1, 2 * (1 + HELLO_ZLIB.len()));
    assert!(matches!(lines[1].0.kind, PackKind::Object(Kind::Tree)));
    assert_eq!(lines[1].1, 1 + HELLO_ZLIB.len());
    let (r, lines) = GitPack::read_listing(Bytes::from(pack(&[entry(&[0x35])], 1)));
    assert!(r.is_ok());
    assert_eq!(lines.len(), 1);
    assert_eq!(lines[0].1, 0);
    let (r, lines) = GitPack::read_listing(Bytes::from(b"PACK".to_vec()));
    assert!(matches!(r, Err(GitError::PackTooShort)));
    assert!(lines.is_empty());
}
