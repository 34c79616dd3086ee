use bytes::BytesMut;
use gitlite::error::GitError;
use gitlite::git::{blob_contents, is_skipped, ls_tree_request, tree_entry, tree_names, tree_object};
use gitlite::object::tree::builder::TreeBuilder;
use gitlite::object::tree::scanner::{scan_completes, TreeScanner};
use gitlite::object::tree::writer::Writer;
use gitlite::object::tree::{Tree, TreeItem};
use gitlite::object::{Body, Object, ObjectBuilder};
use gitlite::sha::Sha;

const SHA_A: &str = "6768033e216468247bd031a0a2d9876d79818f8f";
const SHA_B: &str = "602c63d2f3d13ca3206cdf204cde24e7d8f4266c";

fn item(mode: &str, name: &str, sha: &str) -> TreeItem {
    TreeItem { mode: mode.to_string(), name: name.to_string(), sha: Sha::from_str(sha).unwrap() }
}

fn raw(sha: &str) -> Vec<u8> {
    (0..20).map(|i| u8::from_str_radix(&sha[2 * i..2 * i + 2], 16).unwrap()).collect()
}

fn tree_bytes() -> Vec<u8> {
    let mut v = b"100644 a.txt\0".to_vec();
    v.extend(raw(SHA_A));
    v.extend_from_slice(b"40000 dir\0");
    v.extend(raw(SHA_B));
    v
}

#[test]
fn tree_entries_are_written_with_raw_hashes() {
    let tree = Tree::new(vec![item("100644", "a.txt", SHA_A), item("40000", "dir", SHA_B)]);
    let mut buffer = BytesMut::new();
    tree.encode(&mut buffer).unwrap();
    assert_eq!(buffer.to_vec(), tree_bytes());
}

#[test]
fn tree_bytes_read_back() {
    let tree = Tree::decode(&tree_bytes()).unwrap();
    let items = tree.items();
    assert_eq!(items.len(), 2);
    assert_eq!(items[0].mode, "100644");
    assert_eq!(items[0].name, "a.txt");
    assert_eq!(items[0].sha.as_str(), SHA_A);
    assert_eq!(items[1].mode, "40000");
    assert_eq!(items[1].name, "dir");
    assert_eq!(items[1].sha.as_str(), SHA_B);
    let mut buffer = BytesMut::new();
    tree.encode(&mut buffer).unwrap();
    assert_eq!(buffer.to_vec(), tree_bytes());
}

#[test]
fn tree_scan_stops_at_missing_delimiters_and_bad_text() {
    let mut data = tree_bytes();
    data.extend_from_slice(b"no space here");
    assert_eq!(Tree::decode(&data).unwrap().items().len(), 2);
    let mut data = b"100644 \xff\0".to_vec();
    data.extend(raw(SHA_A));
    assert_eq!(Tree::decode(&data).unwrap().items().len(), 0);
    assert_eq!(Tree::decode(b"").unwrap().items().len(), 0);
    assert_eq!(Tree::decode(b"100644 name without nul").unwrap().items().len(), 0);
}

#[test]
fn tree_scanner_steps_one_entry_at_a_time() {
    let data = tree_bytes();
    let mut scanner = TreeScanner { data: &data };
    let first = scanner.next_item().unwrap();
    assert_eq!(first.name, "a.txt");
    assert_eq!(scanner.data.len(), data.len() - 33);
    let second = scanner.next_item().unwrap();
    assert_eq!(second.name, "dir");
    assert!(scanner.data.is_empty());
    assert!(scanner.next_item().is_none());
}

#[test]
fn short_hash_makes_the_scan_panic() {
    assert!(!scan_completes(b"100644 a\0short"));
    assert!(scan_completes(&tree_bytes()));
    assert!(scan_completes(b"junk"));
}

#[test]
fn unreadable_hash_text_cannot_be_written() {
    let bad = item("100644", "x", "zzzzzzzzzzzzzzzzzzzzzzzzzzzzzzzzzzzzzzzz");
    assert!(!bad.encodable());
    assert!(item("100644", "x", SHA_A).encodable());
    assert!(item("100644", "x", "6768033E216468247BD031A0A2D9876D79818F8F").encodable());
}

#[test]
fn writer_puts_hash_text() {
    let items = vec![item("100644", "a.txt", SHA_A)];
    let writer = Writer { items: &items };
    let mut expected = b"100644 a.txt\0".to_vec();
    expected.extend_from_slice(SHA_A.as_bytes());
    assert_eq!(writer.to_bytes().to_vec(), expected);
    let empty: Vec<TreeItem> = Vec::new();
    assert!(Writer { items: &empty }.to_bytes().is_empty());
}

#[test]
fn tree_object_holds_entry_bytes_size() {
    let obj = tree_object(vec![item("100644", "a.txt", SHA_A), item("40000", "dir", SHA_B)]);
    let mut buffer = BytesMut::new();
    obj.encode(&mut buffer).unwrap();
    let mut expected = format!("tree {}\0", tree_bytes().len()).into_bytes();
    expected.extend(tree_bytes());
    assert_eq!(buffer.to_vec(), expected);
    let back = Object::decode(&expected).unwrap();
    assert_eq!(tree_names(&back).unwrap(), vec!["a.txt".to_string(), "dir".to_string()]);
}

#[test]
fn tree_entry_names_the_packed_object() {
    let obj = ObjectBuilder::blob(b"hello world!").build().unwrap();
    let entry = tree_entry("greeting".to_string(), &obj).unwrap();
    assert_eq!(entry.mode, "111");
    assert_eq!(entry.name, "greeting");
    assert_eq!(entry.sha.as_str(), "bc7774a7b18deb1d7bd0212d34246a9b1260ae17");
    let small = ObjectBuilder::blob(b"hi").build().unwrap();
    assert!(matches!(tree_entry("x".to_string(), &small), Err(GitError::ShaChunkLength)));
}

#[test]
fn cat_file_and_ls_tree_pick_their_kind() {
    let blob = ObjectBuilder::blob(b"contents").build().unwrap();
    assert_eq!(blob_contents(&blob).unwrap(), b"contents".to_vec());
    assert!(matches!(tree_names(&blob), Err(GitError::NotATree)));
    let tree = Object::decode(b"tree 0\0").unwrap();
    assert!(matches!(blob_contents(&tree), Err(GitError::NotABlob)));
    assert!(tree_names(&tree).unwrap().is_empty());
    match tree.body() {
        Body::Tree(t) => assert!(t.items().is_empty()),
        _ => panic!("not a tree"),
    }
}

#[test]
fn ls_tree_only_lists_names() {
    assert!(matches!(ls_tree_request(false, SHA_A), Err(GitError::OnlyNamesSupported)));
    assert!(matches!(ls_tree_request(false, "short"), Err(GitError::OnlyNamesSupported)));
    assert!(matches!(ls_tree_request(true, "short"), Err(GitError::UnexpectedShaLength)));
    assert_eq!(ls_tree_request(true, SHA_A).unwrap().as_str(), SHA_A);
}

#[test]
fn tree_builder_takes_a_directory() {
    let dir = String::from("src/object");
    let _builder = TreeBuilder::new(dir.as_str());
    let _root = TreeBuilder::new(".");
}

#[test]
fn write_tree_skips_listed_names() {
    assert!(is_skipped(".git", &[".git"]));
    assert!(is_skipped("target", &[".git", "target"]));
    assert!(!is_skipped("src", &[".git", "target"]));
    assert!(!is_skipped(".gi", &[".git"]));
    assert!(!is_skipped(".git", &[]));
    assert!(is_skipped("é", &["a", "é"]));
}
