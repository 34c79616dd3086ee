//! Objects read only as far as their kind, with the body kept as bytes.
use crate::codec::unzip;
use crate::error::GitError;
use crate::object::kind::{kind_of_name, Kind, KindView};
use crate::object::{object_of, BodyView};
use crate::seqs::{lemma_first_pos, lemma_first_pos_after, lemma_first_pos_at};
use crate::object::lemma_ascii_valid_utf8;
use crate::object::tree::scanner::scan_items;
use crate::object::tree::Tree;
use crate::object::{GIT_BLOB_DELIMITER, GIT_KIND_DELIMITER};
use crate::seqs::{copy_range, find_byte, first_pos};
use crate::text::utf8_str;
use crate::zlib::zlib_inflated;
use vstd::prelude::*;
use vstd::utf8::valid_utf8;

verus! {

/// An object of some kind, with its body as bytes.
#[derive(Debug)]
pub struct AnyObject(Kind, Vec<u8>);

/// An object of some kind as a value: the kind and the body's bytes.
pub struct AnyObjectView {
    pub kind: KindView,
    pub bytes: Seq<u8>,
}

impl View for AnyObject {
    type V = AnyObjectView;

    closed spec fn view(&self) -> AnyObjectView {
        AnyObjectView { kind: self.0@, bytes: self.1@ }
    }
}

/// The object that the decompressed bytes `d` hold: the header runs through
/// the first NUL and must be UTF-8; before its first space it names the kind;
/// the body is what follows the NUL.
pub open spec fn any_of_bytes(d: Seq<u8>) -> Result<AnyObjectView, GitError> {
    let p = first_pos(d, GIT_BLOB_DELIMITER);
    if p == d.len() {
        Err(GitError::MissingHeaderEnd)
    } else {
        let header = d.take(p + 1);
        if !valid_utf8(header) {
            Err(GitError::InvalidUtf8)
        } else {
            let q = first_pos(header, GIT_KIND_DELIMITER);
            if q == header.len() {
                Err(GitError::MissingKind)
            } else {
                match kind_of_name(header.take(q)) {
                    None => Err(GitError::UnknownKind),
                    Some(k) => Ok(AnyObjectView { kind: k, bytes: d.skip(p + 1) }),
                }
            }
        }
    }
}

/// The object that the stored form `data` holds.
pub open spec fn any_of(data: Seq<u8>) -> Result<AnyObjectView, GitError> {
    match zlib_inflated(data) {
        None => Err(GitError::Decompress),
        Some((d, _)) => any_of_bytes(d),
    }
}

/// Reads an object of some kind from its stored form (once the file is read).
pub fn decode(file: Vec<u8>) -> (r: Result<AnyObject, GitError>)
    ensures
        match any_of(file@) {
            Ok(v) => r matches Ok(x) && x@ == v,
            Err(e) => r matches Err(x) && x == e,
        },
{
    let data = unzip(file.as_slice())?;
    let ghost d = data@;
    assert(any_of(file@) == any_of_bytes(d));
    let blob_ix = find_byte(data.as_slice(), GIT_BLOB_DELIMITER);
    if blob_ix == data.len() {
        return Err(GitError::MissingHeaderEnd);
    }
    let header = &data.as_slice()[0..blob_ix + 1];
    let blob = &data.as_slice()[blob_ix + 1..data.len()];
    assert(header@ =~= data@.take(blob_ix + 1));
    assert(blob@ =~= data@.skip(blob_ix + 1));
    let header = match utf8_str(header) {
        Some(h) => h,
        None => return Err(GitError::InvalidUtf8),
    };
    let hb = header.as_bytes();
    assert(hb@ == d.take(blob_ix + 1));
    let q = find_byte(hb, GIT_KIND_DELIMITER);
    if q == hb.len() {
        return Err(GitError::MissingKind);
    }
    let kind = &hb[0..q];
    assert(kind@ =~= hb@.take(q as int));
    let kind = Kind::decode(kind)?;
    assert(any_of_bytes(d) == Ok::<AnyObjectView, GitError>(AnyObjectView { kind: kind@, bytes: blob@ }));
    let body = copy_range(blob, 0, blob.len());
    assert(body@ =~= blob@);
    Ok(AnyObject(kind, body))
}

impl AnyObject {
    /// The tree that a tree object's bytes hold; other kinds are refused. The
    /// scan of the bytes panics where a name is followed by fewer than 20
    /// bytes; `requires` leaves that out.
    pub fn into_tree(self) -> (r: Result<Tree, GitError>)
        requires
            self@.kind is Tree ==> scan_items(self@.bytes) is Some,
        ensures
            match r {
                Ok(t) => self@.kind is Tree && t@ == scan_items(self@.bytes).unwrap(),
                Err(e) => !(self@.kind is Tree) && e == GitError::NotATree,
            },
    {
        if !self.0.is_tree() {
            return Err(GitError::NotATree);
        }
        Tree::decode(self.1.as_slice())
    }

    /// The kind.
    pub fn kind(&self) -> (k: Kind)
        ensures
            k@ == self@.kind,
    {
        self.0.duplicate()
    }

    /// The body's bytes.
    pub fn bytes(&self) -> (b: &[u8])
        ensures
            b@ == self@.bytes,
    {
        self.1.as_slice()
    }
}

/// Where both readings of the same decompressed bytes succeed, they agree:
/// the kind that `AnyObject` keeps is the object's kind, and a blob's contents
/// are the bytes that `AnyObject` keeps.
pub proof fn law_any_object_agrees(d: Seq<u8>)
    requires
        object_of(d) matches Some(Ok(_)),
        any_of_bytes(d) is Ok,
    ensures
        any_of_bytes(d).unwrap().kind == object_of(d).unwrap().unwrap().header.kind,
        object_of(d).unwrap().unwrap().body matches BodyView::Blob(b) ==> b == any_of_bytes(d).unwrap().bytes,
{
    let p = first_pos(d, GIT_BLOB_DELIMITER);
    lemma_first_pos(d, GIT_BLOB_DELIMITER);
    let h1 = d.take(p);
    let h2 = d.take(p + 1);
    let q1 = first_pos(h1, GIT_KIND_DELIMITER);
    let q2 = first_pos(h2, GIT_KIND_DELIMITER);
    lemma_first_pos(h1, GIT_KIND_DELIMITER);
    lemma_first_pos(h2, GIT_KIND_DELIMITER);
    assert(q1 < h1.len());
    assert forall|j: int| 0 <= j < q1 implies h2[j] != GIT_KIND_DELIMITER by {
        assert(h2[j] == h1[j]);
    }
    assert(h2[q1] == h1[q1]);
    lemma_first_pos_at(h2, GIT_KIND_DELIMITER, q1);
    assert(h2.take(q2) =~= h1.take(q1));
}

/// Only the header of a stored object must be UTF-8: an object whose header
/// is `blob`, `tree` or `commit`, a space, and any UTF-8 text without a NUL,
/// then a NUL, reads as that kind with its body kept as it is, whatever bytes
/// the body holds; and a stored form reads as the object it inflates to.
pub proof fn law_any_reads_any_body(name: Seq<u8>, rest: Seq<u8>, body: Seq<u8>, file: Seq<u8>)
    requires
        name == seq![98u8, 108, 111, 98] || name == seq![116u8, 114, 101, 101] || name == seq![
            99u8,
            111,
            109,
            109,
            105,
            116,
        ],
        valid_utf8(rest),
        forall|i: int| 0 <= i < rest.len() ==> rest[i] != 0,
    ensures
        ({
            let d = name + seq![32u8] + rest + seq![0u8] + body;
            let kind = if name == seq![98u8, 108, 111, 98] {
                KindView::Blob
            } else if name == seq![116u8, 114, 101, 101] {
                KindView::Tree
            } else {
                KindView::Commit
            };
            &&& any_of_bytes(d) == Ok::<AnyObjectView, GitError>(AnyObjectView { kind, bytes: body })
            &&& (zlib_inflated(file) matches Some((x, _)) && x == d) ==> any_of(file) == any_of_bytes(d)
        }),
{
    let h = name + seq![32u8];
    let header = h + rest + seq![0u8];
    let d = name + seq![32u8] + rest + seq![0u8] + body;
    assert(d =~= header + body);
    assert forall|i: int| 0 <= i < h.len() implies #[trigger] h[i] < 128 by {
        if i < name.len() {
            assert(h[i] == name[i]);
        }
    }
    lemma_ascii_valid_utf8(h);
    lemma_ascii_valid_utf8(seq![0u8]);
    vstd::utf8::valid_utf8_concat(h, rest);
    vstd::utf8::valid_utf8_concat(h + rest, seq![0u8]);
    let hr = h + rest;
    assert forall|j: int| 0 <= j < hr.len() implies hr[j] != 0u8 by {
        if j < name.len() {
            assert(hr[j] == name[j]);
        } else if j > name.len() {
            assert(hr[j] == rest[j - h.len()]);
        }
    }
    assert(d =~= hr + (seq![0u8] + body));
    lemma_first_pos_after(hr, seq![0u8] + body, 0u8);
    lemma_first_pos_at(seq![0u8] + body, 0u8, 0);
    let p = hr.len() as int;
    assert(d.take(p + 1) =~= header);
    assert(d.skip(p + 1) =~= body);
    assert forall|j: int| 0 <= j < name.len() implies name[j] != 32u8 by {}
    assert(header =~= name + (seq![32u8] + rest + seq![0u8]));
    lemma_first_pos_after(name, seq![32u8] + rest + seq![0u8], 32u8);
    lemma_first_pos_at(seq![32u8] + rest + seq![0u8], 32u8, 0);
    assert(header.take(name.len() as int) =~= name);
}

} // verus!
