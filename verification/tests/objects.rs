use bytes::BytesMut;
use gitlite::buffers::{buffer_contents, empty_buffer};
use gitlite::codec::{unzip, unzip_count, zip};
use gitlite::error::GitError;
use gitlite::object::blob::Blob;
use gitlite::object::kind::Kind;
use gitlite::object::{Body, Header, Object, ObjectBuilder};
use gitlite::sha::Sha;

const HELLO_WORLD_SHA: &str = "bc7774a7b18deb1d7bd0212d34246a9b1260ae17";

fn encoded(obj: &Object) -> Vec<u8> {
    let mut buffer = BytesMut::new();
    obj.encode(&mut buffer).unwrap();
    buffer.to_vec()
}

#[test]
fn kind_names_are_written_and_read() {
    let mut buffer = BytesMut::new();
    Kind::Blob.encode(&mut buffer).unwrap();
    Kind::Tree.encode(&mut buffer).unwrap();
    Kind::Commit.encode(&mut buffer).unwrap();
    assert_eq!(&buffer[..], b"blobtreecommit");
    assert!(matches!(Kind::decode(b"blob"), Ok(Kind::Blob)));
    assert!(matches!(Kind::decode(b"tree"), Ok(Kind::Tree)));
    assert!(matches!(Kind::decode(b"commit"), Ok(Kind::Commit)));
    assert!(matches!(Kind::decode(b"tag"), Err(GitError::UnknownKind)));
    assert!(matches!(Kind::decode(b"Blob"), Err(GitError::UnknownKind)));
}

#[test]
fn kinds_without_a_name_are_refused() {
    let mut buffer = BytesMut::new();
    buffer.extend_from_slice(b"x");
    assert!(matches!(Kind::Tag.encode(&mut buffer), Err(GitError::UnsupportedKind)));
    assert!(matches!(Kind::ObjectOffet(3).encode(&mut buffer), Err(GitError::UnsupportedKind)));
    assert_eq!(&buffer[..], b"x");
}

#[test]
fn header_is_kind_space_decimal_size() {
    let mut buffer = BytesMut::new();
    Header::new(Kind::Blob, 1234).encode(&mut buffer).unwrap();
    assert_eq!(&buffer[..], b"blob 1234");
    let mut buffer = BytesMut::new();
    Header::new(Kind::Tree, 0).encode(&mut buffer).unwrap();
    assert_eq!(&buffer[..], b"tree 0");
}

#[test]
fn header_reads_back() {
    let h = Header::decode(b"commit 250").unwrap();
    assert!(matches!(h.kind(), Kind::Commit));
    assert_eq!(h.size(), 250);
    let h = Header::decode(b"blob +7").unwrap();
    assert_eq!(h.size(), 7);
    let h = Header::decode(b"tree 12 extra").unwrap();
    assert_eq!(h.size(), 12);
}

#[test]
fn header_errors() {
    assert!(matches!(Header::decode(b"blob"), Err(GitError::MissingSize)));
    assert!(matches!(Header::decode(b"blob "), Err(GitError::MissingSize)));
    assert!(matches!(Header::decode(b"blob 1x"), Err(GitError::MissingSize)));
    assert!(matches!(Header::decode(b"blob -1"), Err(GitError::MissingSize)));
    assert!(matches!(Header::decode(b"blob +"), Err(GitError::MissingSize)));
    assert!(matches!(Header::decode(b"blob 99999999999999999999999"), Err(GitError::MissingSize)));
    assert!(matches!(Header::decode(b"blobs 1"), Err(GitError::UnknownKind)));
    assert!(matches!(Header::decode(b""), Err(GitError::UnknownKind)));
}

#[test]
fn built_blob_has_git_object_format() {
    let obj = ObjectBuilder::blob(b"hello").build().unwrap();
    assert_eq!(encoded(&obj), b"blob 5\0hello".to_vec());
    assert_eq!(obj.header().size(), 5);
    match obj.body() {
        Body::Blob(b) => assert_eq!(b.as_bytes(), b"hello"),
        _ => panic!("not a blob"),
    }
    let empty = ObjectBuilder::blob(b"").build().unwrap();
    assert_eq!(encoded(&empty), b"blob 0\0".to_vec());
}

#[test]
fn object_encoding_reads_back() {
    let obj = ObjectBuilder::blob(b"some data\0with nul").build().unwrap();
    let bytes = encoded(&obj);
    assert!(Object::decodable(&bytes));
    let back = Object::decode(&bytes).unwrap();
    assert_eq!(encoded(&back), bytes);
    match back.body() {
        Body::Blob(b) => assert_eq!(b.as_bytes(), b"some data\0with nul"),
        _ => panic!("not a blob"),
    }
}

#[test]
fn object_decode_errors() {
    assert!(matches!(Object::decode(b"blob 5"), Err(GitError::MissingHeaderEnd)));
    assert!(matches!(Object::decode(b"tag 3\0abc"), Err(GitError::UnknownKind)));
    assert!(matches!(Object::decode(b"blob x\0abc"), Err(GitError::MissingSize)));
    let obj = Object::decode(b"blob 99\0abc").unwrap();
    assert_eq!(obj.header().size(), 99);
}

#[test]
fn commits_and_short_trees_are_not_decodable() {
    assert!(!Object::decodable(b"commit 3\0abc"));
    assert!(!Object::decodable(b"tree 9\0100 a\0short"));
    assert!(Object::decodable(b"tree 0\0"));
    assert!(Object::decodable(b"no header end"));
    assert!(Object::decodable(b"bad 1\0x"));
}

#[test]
fn unsupported_object_kind_is_refused_when_written() {
    let obj = Object::new(Header::new(Kind::Tag, 3), Body::Blob(Blob::decode(b"abc").unwrap()));
    let mut buffer = BytesMut::new();
    assert!(matches!(obj.encode(&mut buffer), Err(GitError::UnsupportedKind)));
    assert!(buffer.is_empty());
}

#[test]
fn pack_names_twenty_byte_objects_and_unpack_reads_them_back() {
    let obj = ObjectBuilder::blob(b"hello world!").build().unwrap();
    assert_eq!(encoded(&obj).len(), 20);
    let (sha, data) = obj.pack().unwrap();
    assert_eq!(sha.as_str(), HELLO_WORLD_SHA);
    assert_eq!(unzip(&data).unwrap(), b"blob 12\0hello world!".to_vec());
    let back = Object::unpack(&data).unwrap();
    assert_eq!(encoded(&back), encoded(&obj));
    assert!(matches!(Object::try_unpack(&data), Some(Ok(_))));
}

#[test]
fn pack_refuses_objects_that_are_not_twenty_bytes() {
    let obj = ObjectBuilder::blob(b"hello").build().unwrap();
    assert!(matches!(obj.pack(), Err(GitError::ShaChunkLength)));
    let obj = Object::new(Header::new(Kind::Tag, 12), Body::Blob(Blob::decode(b"hello world!").unwrap()));
    assert!(matches!(obj.pack(), Err(GitError::ShaChunkLength)));
}

#[test]
fn unpack_of_known_stream() {
    let data: Vec<u8> = vec![120, 156, 75, 202, 201, 79, 82, 48, 101, 200, 72, 205, 201, 201, 7, 0, 25, 170, 4, 9];
    let obj = Object::unpack(&data).unwrap();
    match obj.body() {
        Body::Blob(b) => assert_eq!(b.as_bytes(), b"hello"),
        _ => panic!("not a blob"),
    }
    assert!(matches!(Object::unpack(b"not zlib"), Err(GitError::Decompress)));
}

#[test]
fn try_unpack_refuses_commits() {
    let data = zip(b"commit 3\0abc").unwrap();
    assert!(Object::try_unpack(&data).is_none());
    assert!(matches!(Object::try_unpack(b"junk"), Some(Err(GitError::Decompress))));
}

#[test]
fn commit_object_bytes() {
    let tree = Sha::from_str("0123456789abcdef0123456789abcdef01234567").unwrap();
    let parent = Sha::from_str("89abcdef0123456789abcdef0123456789abcdef").unwrap();
    let obj = Object::commit(tree, Some(parent), "first".to_string()).unwrap();
    let expected = b"tree 0123456789abcdef0123456789abcdef01234567\nparent 89abcdef0123456789abcdef0123456789abcdef\nauthor Hernan Gonzalez 1493170892 -0500\ncommitter Hernan Gonzalez 1493170892 -0500\n\nfirst\n";
    let mut body = BytesMut::new();
    obj.body().encode(&mut body).unwrap();
    assert_eq!(&body[..], &expected[..]);
    assert_eq!(obj.header().size(), expected.len());
    assert!(matches!(obj.header().kind(), Kind::Commit));
}

#[test]
fn commit_without_parent_keeps_empty_line() {
    let tree = Sha::from_str("0123456789abcdef0123456789abcdef01234567").unwrap();
    let obj = Object::commit(tree, None, String::new()).unwrap();
    let mut body = BytesMut::new();
    obj.body().encode(&mut body).unwrap();
    let expected = b"tree 0123456789abcdef0123456789abcdef01234567\n\nauthor Hernan Gonzalez 1493170892 -0500\ncommitter Hernan Gonzalez 1493170892 -0500\n\n\n";
    assert_eq!(&body[..], &expected[..]);
}

#[test]
fn zip_then_unzip_gives_the_data_back() {
    let data = b"a fairly ordinary line of text, repeated, repeated, repeated".to_vec();
    let z = zip(&data).unwrap();
    assert_ne!(z, data);
    assert_eq!(unzip(&z).unwrap(), data);
    let (out, n) = unzip_count(&z).unwrap();
    assert_eq!(out, data);
    assert_eq!(n, z.len());
}

#[test]
fn unzip_count_stops_at_the_end_of_the_stream() {
    let mut data: Vec<u8> = vec![120, 156, 203, 72, 205, 201, 201, 7, 0, 6, 44, 2, 21];
    data.extend_from_slice(b"trailing");
    let (out, n) = unzip_count(&data).unwrap();
    assert_eq!(out, b"hello".to_vec());
    assert_eq!(n, 13);
    assert!(matches!(unzip_count(&[1, 2, 3]), Err(GitError::Decompress)));
    assert!(matches!(unzip(&[]), Err(GitError::Decompress)));
}

#[test]
fn pack_names_a_blob_by_its_git_id() {
    let obj = ObjectBuilder::blob(b"hello world\n").build().unwrap();
    let (sha, data) = obj.pack().unwrap();
    assert_eq!(sha.as_bytes(), b"3b18e512dba79e4c8300dd08aeb37f8e728b8dad");
    assert_eq!(unzip(&data).unwrap(), b"blob 12\0hello world\n".to_vec());
}

#[test]
fn zip_always_compresses_and_reads_back() {
    for input in [&b""[..], b"a", b"blob 12\0hello world\n", &[0u8; 5000][..]] {
        let data = zip(input).unwrap();
        assert_eq!(unzip(&data).unwrap(), input.to_vec());
        assert_eq!(unzip_count(&data).unwrap().1, data.len());
    }
}

#[test]
fn writers_fill_a_library_buffer() {
    let mut buffer = empty_buffer();
    assert!(buffer_contents(&buffer).is_empty());
    let header = Header::new(Kind::Tree, 37);
    header.encode(&mut buffer).unwrap();
    assert_eq!(buffer_contents(&buffer), b"tree 37");
}

#[test]
fn names_are_forty_bytes() {
    let sha = Sha::from_str(HELLO_WORLD_SHA).unwrap();
    assert_eq!(sha.as_bytes().len(), 40);
    let copy = sha.clone();
    assert_eq!(copy, sha);
    assert_eq!(copy.as_str(), HELLO_WORLD_SHA);
}

#[test]
fn unpacking_a_stream_is_decoding_its_bytes() {
    for buf in [&b"blob 3\0abc"[..], b"tree 0\0", b"blob x\0abc", b"no header end", b"tag 1\0a"] {
        let stored = zip(buf).unwrap();
        let unpacked = Object::unpack(&stored).map(|o| encoded(&o));
        let decoded = Object::decode(buf).map(|o| encoded(&o));
        assert_eq!(format!("{:?}", unpacked), format!("{:?}", decoded));
    }
}

#[test]
fn kinds_compare_and_clone() {
    assert_eq!(Kind::Blob, Kind::Blob.clone());
    assert_ne!(Kind::Blob, Kind::Tree);
    let r = Kind::ObjectRef(Sha::from_str(HELLO_WORLD_SHA).unwrap());
    assert_eq!(r.clone(), r);
    assert_ne!(Kind::ObjectOffet(1), Kind::ObjectOffet(2));
}
