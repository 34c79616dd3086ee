//! Objects: a header naming kind and size, then the body.
pub mod any;
pub mod blob;
pub mod commit;
pub mod kind;
pub mod tree;

use crate::buffers::{bytes_mut_contents, bytes_mut_len, bytes_mut_new, bytes_mut_slice, put_slice, put_u8};
use crate::codec::{unzip, zip};
use crate::error::GitError;
use crate::hashing::sha1_of;
use crate::hexcode::{hex_text, is_lower_hex_text};
use crate::numtext::{
    decimal_bytes, decimal_text, lemma_decimal_text_is_digits, law_decimal_roundtrip,
    law_decimal_text_canonical, radix_value,
    parse_unsigned, parse_unsigned_spec,
};
use crate::object::blob::Blob;
use crate::object::commit::{commit_bytes, Commit, CommitView};
use crate::object::kind::{kind_name, kind_of_name, law_kind_name_roundtrip, Kind, KindView};
use crate::object::tree::scanner::{scan_completes, scan_items};
use crate::object::tree::{
    item_roundtrips, items_bytes, items_encodable, law_tree_roundtrip, Tree, TreeItemView,
};
use crate::seqs::{find_byte, first_pos, lemma_first_pos_after, lemma_first_pos_at};
use crate::sha::Sha;
use crate::text::utf8_str;
use crate::zlib::{zlib_compressed, zlib_inflated};
use bytes::BytesMut;
use vstd::prelude::*;
use vstd::utf8::valid_utf8;

verus! {

/// The byte that ends an object's header (and an entry's name in a tree).
pub const GIT_BLOB_DELIMITER: u8 = 0;

/// The byte after an object's kind (and an entry's mode in a tree).
pub const GIT_KIND_DELIMITER: u8 = 32;

/// The header of an object: its kind and the size of its body.
#[derive(Debug)]
pub struct Header {
    kind: Kind,
    size: usize,
}

/// A header as a value.
pub struct HeaderView {
    pub kind: KindView,
    pub size: usize,
}

impl View for Header {
    type V = HeaderView;

    closed spec fn view(&self) -> HeaderView {
        HeaderView { kind: self.kind@, size: self.size }
    }
}

/// The bytes of a header: the kind's name, a space, the size in decimal; only
/// kinds with a name can be written.
pub open spec fn header_bytes(h: HeaderView) -> Option<Seq<u8>> {
    match kind_name(h.kind) {
        Some(n) => Some(n + seq![GIT_KIND_DELIMITER] + decimal_text(h.size as nat)),
        None => None,
    }
}

/// The header that `chunk` holds: the part before the first space names the
/// kind; the part after it, up to the next space, is the size, valid UTF-8
/// text of an unsigned decimal number (an optional `+`, then digits).
pub open spec fn header_of(chunk: Seq<u8>) -> Result<HeaderView, GitError> {
    let p = first_pos(chunk, GIT_KIND_DELIMITER);
    match kind_of_name(chunk.take(p)) {
        None => Err(GitError::UnknownKind),
        Some(k) => if p == chunk.len() {
            Err(GitError::MissingSize)
        } else {
            let rest = chunk.skip(p + 1);
            let s = rest.take(first_pos(rest, GIT_KIND_DELIMITER));
            if valid_utf8(s) && parse_unsigned_spec(s, 10) is Some {
                Ok(HeaderView { kind: k, size: parse_unsigned_spec(s, 10).unwrap() })
            } else {
                Err(GitError::MissingSize)
            }
        },
    }
}

impl Header {
    /// A header of the given kind and size.
    pub fn new(kind: Kind, size: usize) -> (h: Header)
        ensures
            h@ == (HeaderView { kind: kind@, size }),
    {
        Header { kind, size }
    }

    /// The kind.
    pub fn kind(&self) -> (k: &Kind)
        ensures
            k@ == self@.kind,
    {
        &self.kind
    }

    /// The size of the body.
    pub fn size(&self) -> (s: usize)
        ensures
            s == self@.size,
    {
        self.size
    }

    /// Writes the header; a kind without a name is refused and nothing is written.
    pub fn encode(&self, buffer: &mut BytesMut) -> (r: Result<(), GitError>)
        requires
            header_bytes(self@) matches Some(b) ==> bytes_mut_contents(*old(buffer)).len() + b.len()
                <= isize::MAX,
        ensures
            match header_bytes(self@) {
                Some(b) => r is Ok && bytes_mut_contents(*final(buffer)) == bytes_mut_contents(
                    *old(buffer),
                ) + b,
                None => r == Err::<(), GitError>(GitError::UnsupportedKind) && bytes_mut_contents(
                    *final(buffer),
                ) == bytes_mut_contents(*old(buffer)),
            },
    {
        let ghost start = bytes_mut_contents(*buffer);
        self.kind.encode(buffer)?;
        put_u8(buffer, GIT_KIND_DELIMITER);
        let size = decimal_bytes(self.size);
        put_slice(buffer, size.as_slice());
        assert(bytes_mut_contents(*buffer) =~= start + header_bytes(self@).unwrap());
        Ok(())
    }

    /// Reads a header.
    pub fn decode(chunk: &[u8]) -> (r: Result<Header, GitError>)
        ensures
            match header_of(chunk@) {
                Ok(h) => r matches Ok(x) && x@ == h,
                Err(e) => r == Err::<Header, GitError>(e),
            },
    {
        let p = find_byte(chunk, GIT_KIND_DELIMITER);
        let kind = Kind::decode(&chunk[0..p]);
        assert(chunk@.subrange(0, p as int) =~= chunk@.take(p as int));
        let kind = match kind {
            Ok(k) => k,
            Err(e) => return Err(e),
        };
        if p == chunk.len() {
            return Err(GitError::MissingSize);
        }
        let rest = &chunk[p + 1..chunk.len()];
        assert(rest@ =~= chunk@.skip(p + 1));
        let q = find_byte(rest, GIT_KIND_DELIMITER);
        let s = &rest[0..q];
        assert(s@ =~= rest@.take(q as int));
        let size = match utf8_str(s) {
            Some(text) => parse_unsigned(text.as_bytes(), 10),
            None => None,
        };
        match size {
            Some(size) => Ok(Header { kind, size }),
            None => Err(GitError::MissingSize),
        }
    }
}

/// The body of an object.
#[derive(Debug)]
pub enum Body {
    Blob(Blob),
    Tree(Tree),
    Commit(Commit),
}

/// A body as a value.
pub enum BodyView {
    Blob(Seq<u8>),
    Tree(Seq<TreeItemView>),
    Commit(CommitView),
}

impl View for Body {
    type V = BodyView;

    open spec fn view(&self) -> BodyView {
        match self {
            Body::Blob(b) => BodyView::Blob(b@),
            Body::Tree(t) => BodyView::Tree(t@),
            Body::Commit(c) => BodyView::Commit(c@),
        }
    }
}

/// The bytes of a body.
pub open spec fn body_bytes(b: BodyView) -> Seq<u8> {
    match b {
        BodyView::Blob(d) => d,
        BodyView::Tree(items) => items_bytes(items),
        BodyView::Commit(c) => commit_bytes(c),
    }
}

/// Whether a body can be written: every tree entry must have a hexadecimal hash text.
pub open spec fn body_encodable(b: BodyView) -> bool {
    match b {
        BodyView::Tree(items) => items_encodable(items),
        _ => true,
    }
}

/// The body of kind `k` that `chunk` holds: a blob is the bytes as they are, a
/// tree the entries that a scan finds. `None` where reading panics: a tree
/// whose scan panics, and a commit (reading one panics); no other kind is
/// named by a header.
pub open spec fn body_of(k: KindView, chunk: Seq<u8>) -> Option<BodyView> {
    match k {
        KindView::Blob => Some(BodyView::Blob(chunk)),
        KindView::Tree => match scan_items(chunk) {
            Some(items) => Some(BodyView::Tree(items)),
            None => None,
        },
        _ => None,
    }
}

/// Whether a body of kind `k` can be read from `chunk` without a panic.
pub open spec fn body_decodable(k: KindView, chunk: Seq<u8>) -> bool {
    body_of(k, chunk) is Some
}

impl Body {
    /// Reads a body of the given kind.
    pub fn decode(kind: &Kind, chunk: &[u8]) -> (r: Result<Body, GitError>)
        requires
            body_decodable(kind@, chunk@),
        ensures
            r matches Ok(b) && b@ == body_of(kind@, chunk@).unwrap(),
    {
        match kind {
            Kind::Tree => {
                let t = Tree::decode(chunk)?;
                Ok(Body::Tree(t))
            },
            _ => {
                let b = Blob::decode(chunk)?;
                Ok(Body::Blob(b))
            },
        }
    }

    /// Writes the body; this never fails.
    pub fn encode(&self, buffer: &mut BytesMut) -> (r: Result<(), GitError>)
        requires
            body_encodable(self@),
            bytes_mut_contents(*old(buffer)).len() + body_bytes(self@).len() <= isize::MAX,
        ensures
            r is Ok,
            bytes_mut_contents(*final(buffer)) == bytes_mut_contents(*old(buffer)) + body_bytes(
                self@,
            ),
    {
        match self {
            Body::Blob(b) => {
                b.encode(buffer);
                Ok(())
            },
            Body::Tree(t) => t.encode(buffer),
            Body::Commit(c) => c.encode(buffer),
        }
    }
}

/// An object: its header and its body.
#[derive(Debug)]
pub struct Object {
    header: Header,
    body: Body,
}

/// An object as a value.
pub struct ObjectView {
    pub header: HeaderView,
    pub body: BodyView,
}

impl View for Object {
    type V = ObjectView;

    closed spec fn view(&self) -> ObjectView {
        ObjectView { header: self.header@, body: self.body@ }
    }
}

/// The bytes of an object: header, a NUL, body; only objects whose kind has a
/// name can be written.
pub open spec fn object_bytes(o: ObjectView) -> Option<Seq<u8>> {
    match header_bytes(o.header) {
        Some(h) => Some(h + seq![GIT_BLOB_DELIMITER] + body_bytes(o.body)),
        None => None,
    }
}

/// Whether writing object `o` stays within a buffer's limit.
pub open spec fn object_fits(o: ObjectView) -> bool {
    header_bytes(o.header) matches Some(h) ==> h.len() + 1 + body_bytes(o.body).len()
        <= isize::MAX
}

/// What reading `chunk` as an object gives: the header runs to the first NUL,
/// the body is the rest. `None` where the read panics: the header is valid and
/// the body of its kind cannot be read (a commit, or a tree whose scan panics).
pub open spec fn object_of(chunk: Seq<u8>) -> Option<Result<ObjectView, GitError>> {
    let p = first_pos(chunk, GIT_BLOB_DELIMITER);
    if p == chunk.len() {
        Some(Err(GitError::MissingHeaderEnd))
    } else {
        match header_of(chunk.take(p)) {
            Err(e) => Some(Err(e)),
            Ok(h) => match body_of(h.kind, chunk.skip(p + 1)) {
                Some(b) => Some(Ok(ObjectView { header: h, body: b })),
                None => None,
            },
        }
    }
}

/// Whether reading `chunk` as an object ends without a panic.
pub open spec fn object_decodable(chunk: Seq<u8>) -> bool {
    object_of(chunk) is Some
}

/// The bytes that `pack` hashes: the object's bytes, or none where its kind has no name.
pub open spec fn packed_bytes(o: ObjectView) -> Seq<u8> {
    match object_bytes(o) {
        Some(b) => b,
        None => Seq::<u8>::empty(),
    }
}

/// What reading the stored form `file` gives: a stream that does not inflate
/// is refused; otherwise what reading the inflated bytes as an object gives
/// (`None` where that read panics).
pub open spec fn unpack_of(file: Seq<u8>) -> Option<Result<ObjectView, GitError>> {
    match zlib_inflated(file) {
        Some((d, _)) => object_of(d),
        None => Some(Err(GitError::Decompress)),
    }
}

/// Whether reading the stored form `file` ends without a panic.
pub open spec fn unpack_decodable(file: Seq<u8>) -> bool {
    unpack_of(file) is Some
}

impl Object {
    /// An object of the given header and body.
    pub fn new(header: Header, body: Body) -> (o: Object)
        ensures
            o@ == (ObjectView { header: header@, body: body@ }),
    {
        Object { header, body }
    }

    /// The body.
    pub fn body(&self) -> (b: &Body)
        ensures
            b@ == self@.body,
    {
        &self.body
    }

    /// The header.
    pub fn header(&self) -> (h: &Header)
        ensures
            h@ == self@.header,
    {
        &self.header
    }

    /// Writes the object; an object whose kind has no name is refused and
    /// nothing is written.
    pub fn encode(&self, buffer: &mut BytesMut) -> (r: Result<(), GitError>)
        requires
            body_encodable(self@.body),
            header_bytes(self@.header) matches Some(h) ==> bytes_mut_contents(*old(buffer)).len()
                + h.len() + 1 + body_bytes(self@.body).len() <= isize::MAX,
        ensures
            match object_bytes(self@) {
                Some(b) => r is Ok && bytes_mut_contents(*final(buffer)) == bytes_mut_contents(
                    *old(buffer),
                ) + b,
                None => r == Err::<(), GitError>(GitError::UnsupportedKind) && bytes_mut_contents(
                    *final(buffer),
                ) == bytes_mut_contents(*old(buffer)),
            },
    {
        let ghost start = bytes_mut_contents(*buffer);
        self.header.encode(buffer)?;
        put_u8(buffer, GIT_BLOB_DELIMITER);
        let r = self.body.encode(buffer);
        assert(bytes_mut_contents(*buffer) =~= start + object_bytes(self@).unwrap());
        r
    }

    /// Reads an object: a header up to the first NUL, then the body of the kind
    /// it names. Reading a commit's body panics, and so does a tree whose scan
    /// panics; `requires` leaves those out.
    pub fn decode(chunk: &[u8]) -> (r: Result<Object, GitError>)
        requires
            object_decodable(chunk@),
        ensures
            match object_of(chunk@).unwrap() {
                Ok(o) => r matches Ok(x) && x@ == o,
                Err(e) => r == Err::<Object, GitError>(e),
            },
    {
        let blob_ix = find_byte(chunk, GIT_BLOB_DELIMITER);
        if blob_ix == chunk.len() {
            return Err(GitError::MissingHeaderEnd);
        }
        let header = &chunk[0..blob_ix];
        let body = &chunk[blob_ix + 1..chunk.len()];
        assert(header@ =~= chunk@.take(blob_ix as int));
        assert(body@ =~= chunk@.skip(blob_ix + 1));
        let header = Header::decode(header)?;
        let body = Body::decode(&header.kind, body)?;
        Ok(Object { header, body })
    }

    /// Whether reading `chunk` as an object ends without a panic.
    pub fn decodable(chunk: &[u8]) -> (b: bool)
        ensures
            b == object_decodable(chunk@),
    {
        let blob_ix = find_byte(chunk, GIT_BLOB_DELIMITER);
        if blob_ix == chunk.len() {
            return true;
        }
        let header = &chunk[0..blob_ix];
        let body = &chunk[blob_ix + 1..chunk.len()];
        assert(header@ =~= chunk@.take(blob_ix as int));
        assert(body@ =~= chunk@.skip(blob_ix + 1));
        match Header::decode(header) {
            Err(_) => true,
            Ok(h) => match h.kind {
                Kind::Blob => true,
                Kind::Tree => scan_completes(body),
                _ => false,
            },
        }
    }

    /// The stored form of the object: the name is the hash of
    /// the object's bytes (which must be exactly 20 bytes long, else
    /// `ShaChunkLength`), the data their zlib stream. An object whose kind has
    /// no name is hashed as no bytes.
    pub fn pack(&self) -> (r: Result<(Sha, Vec<u8>), GitError>)
        requires
            body_encodable(self@.body),
            object_fits(self@),
        ensures
            match r {
                Ok((sha, data)) => packed_bytes(self@).len() == 20 && sha@ == hex_text(
                    sha1_of(packed_bytes(self@)),
                ) && sha@.len() == 40 && is_lower_hex_text(sha@) && data@ == zlib_compressed(packed_bytes(self@)) && zlib_inflated(data@) == Some(
                    (packed_bytes(self@), data@.len()),
                ),
                Err(e) => packed_bytes(self@).len() != 20 && e == GitError::ShaChunkLength,
            },
    {
        let mut buffer = bytes_mut_new();
        let _ = self.encode(&mut buffer);
        let hash = Sha::try_from_chunk(bytes_mut_slice(&buffer))?;
        let data = zip(bytes_mut_slice(&buffer))?;
        Ok((hash, data))
    }

    /// Reads the stored form `file` of an object, once the file is read: unzip, then read the object. Where that read would panic
    /// is left out by `requires`; `try_unpack` tests it first.
    pub fn unpack(file: &[u8]) -> (r: Result<Object, GitError>)
        requires
            unpack_decodable(file@),
        ensures
            match unpack_of(file@).unwrap() {
                Ok(o) => r matches Ok(x) && x@ == o,
                Err(e) => r == Err::<Object, GitError>(e),
            },
    {
        let chunk = unzip(file)?;
        Object::decode(chunk.as_slice())
    }

    /// Reads the stored form `file` of an object, testing first whether the
    /// read would panic: `None` where it would, `unpack`'s result otherwise.
    pub fn try_unpack(file: &[u8]) -> (r: Option<Result<Object, GitError>>)
        ensures
            match r {
                None => !unpack_decodable(file@),
                Some(res) => unpack_decodable(file@) && match unpack_of(file@).unwrap() {
                    Ok(o) => res matches Ok(x) && x@ == o,
                    Err(e) => res == Err::<Object, GitError>(e),
                },
            },
    {
        let chunk = match unzip(file) {
            Ok(c) => c,
            Err(e) => return Some(Err(e)),
        };
        if !Object::decodable(chunk.as_slice()) {
            return None;
        }
        Some(Object::unpack(file))
    }
}

/// The name written for the author and committer of a new commit.
pub open spec fn commit_author() -> Seq<char> {
    seq!['H', 'e', 'r', 'n', 'a', 'n', ' ', 'G', 'o', 'n', 'z', 'a', 'l', 'e', 'z']
}

/// The commit that `Object::commit` builds.
pub open spec fn new_commit(tree: Seq<char>, parent: Option<Seq<char>>, message: Seq<char>) -> CommitView {
    CommitView { tree, parent, author: commit_author(), committer: commit_author(), message }
}

impl Object {
    /// A commit object of the given tree, parent and message, with a fixed
    /// author and committer; its header holds the size of the commit's bytes.
    pub fn commit(tree: Sha, parent: Option<Sha>, message: String) -> (r: Result<Object, GitError>)
        requires
            commit_bytes(
                new_commit(
                    tree@,
                    match parent {
                        Some(p) => Some(p@),
                        None => None,
                    },
                    message@,
                ),
            ).len() <= isize::MAX,
        ensures
            r matches Ok(o) && {
                let c = new_commit(
                    tree@,
                    match parent {
                        Some(p) => Some(p@),
                        None => None,
                    },
                    message@,
                );
                o@ == (ObjectView {
                    header: HeaderView { kind: KindView::Commit, size: commit_bytes(c).len() as usize },
                    body: BodyView::Commit(c),
                })
            },
    {
        let name = "Hernan Gonzalez";
        proof {
            reveal_strlit("Hernan Gonzalez");
            assert(name@ =~= commit_author());
        }
        let commit = Commit {
            tree,
            parent,
            author: name.to_owned(),
            committer: name.to_owned(),
            message,
        };
        let body = Body::Commit(commit);
        let mut data = bytes_mut_new();
        body.encode(&mut data)?;
        let header = Header { kind: Kind::Commit, size: bytes_mut_len(&data) };
        Ok(Object { header, body })
    }
}

/// Builds objects from raw bytes; only blobs are built.
pub struct ObjectBuilder<'a> {
    kind: Kind,
    data: &'a [u8],
}

impl<'a> View for ObjectBuilder<'a> {
    type V = Seq<u8>;

    closed spec fn view(&self) -> Seq<u8> {
        self.data@
    }
}

impl<'a> ObjectBuilder<'a> {
    /// Only the blob kind is ever set.
    #[verifier::type_invariant]
    closed spec fn builds_blobs(self) -> bool {
        self.kind@ is Blob
    }

    /// A builder of a blob with contents `data`.
    pub fn blob(data: &'a [u8]) -> (b: ObjectBuilder<'a>)
        ensures
            b@ == data@,
    {
        ObjectBuilder { kind: Kind::Blob, data }
    }

    /// The blob object: its header holds the length of the contents.
    pub fn build(&self) -> (r: Result<Object, GitError>)
        ensures
            r matches Ok(o) && o@ == (ObjectView {
                header: HeaderView { kind: KindView::Blob, size: self@.len() as usize },
                body: BodyView::Blob(self@),
            }),
    {
        proof {
            use_type_invariant(self);
        }
        let header = Header { kind: self.kind.duplicate(), size: self.data.len() };
        let body = match self.kind {
            Kind::Blob => Body::Blob(Blob::decode(self.data)?),
            _ => {
                assert(false);
                return Err(GitError::UnsupportedKind);
            },
        };
        Ok(Object { header, body })
    }
}

/// Bytes that are all ASCII are valid UTF-8.
pub proof fn lemma_ascii_valid_utf8(s: Seq<u8>)
    requires
        forall|i: int| 0 <= i < s.len() ==> #[trigger] s[i] < 128,
    ensures
        valid_utf8(s),
{
    assert(s.subrange(0, 0) =~= Seq::<u8>::empty());
    vstd::utf8::partial_valid_utf8_extend_ascii_block(s, 0, s.len() as int);
    assert(s.subrange(0, s.len() as int) =~= s);
}

/// Reading back the bytes of a header whose kind has a name gives that header.
pub proof fn law_header_roundtrip(h: HeaderView)
    requires
        kind_name(h.kind) is Some,
    ensures
        header_of(header_bytes(h).unwrap()) == Ok::<HeaderView, GitError>(h),
        forall|i: int|
            0 <= i < header_bytes(h).unwrap().len() ==> #[trigger] header_bytes(h).unwrap()[i]
                != GIT_BLOB_DELIMITER,
{
    let n = kind_name(h.kind).unwrap();
    law_kind_name_roundtrip(h.kind);
    let d = decimal_text(h.size as nat);
    lemma_decimal_text_is_digits(h.size as nat);
    law_decimal_roundtrip(h.size);
    let chunk = header_bytes(h).unwrap();
    let tail = seq![GIT_KIND_DELIMITER] + d;
    assert(chunk =~= n + tail);
    assert forall|j: int| 0 <= j < n.len() implies n[j] != GIT_KIND_DELIMITER by {
        assert(97 <= n[j] <= 122);
    }
    lemma_first_pos_after(n, tail, GIT_KIND_DELIMITER);
    assert(first_pos(tail, GIT_KIND_DELIMITER) == 0);
    assert(chunk.take(n.len() as int) =~= n);
    let rest = chunk.skip(n.len() as int + 1);
    assert(rest =~= d);
    lemma_first_pos_at(d, GIT_KIND_DELIMITER, d.len() as int);
    assert(d.take(d.len() as int) =~= d);
    lemma_ascii_valid_utf8(d);
    assert forall|i: int| 0 <= i < chunk.len() implies #[trigger] chunk[i] != GIT_BLOB_DELIMITER by {
        if i < n.len() {
            assert(chunk[i] == n[i]);
            assert(97 <= n[i] <= 122);
        } else if i > n.len() {
            assert(chunk[i] == d[i - n.len() - 1]);
        }
    }
}

/// A written header is the kind's name (`blob`, `tree` or `commit`), a space, and the size as
/// `usize::to_string` writes it: ASCII digits whose value is the size, with no
/// leading zero (only a size of zero starts with `0`).
pub proof fn law_header_size_text(h: HeaderView)
    requires
        kind_name(h.kind) is Some,
    ensures
        ({
            let n = kind_name(h.kind).unwrap();
            let b = header_bytes(h).unwrap();
            let d = b.skip(n.len() as int + 1);
            &&& b.take(n.len() as int) == n
            &&& h.kind is Blob ==> n == seq![98u8, 108, 111, 98]
            &&& h.kind is Tree ==> n == seq![116u8, 114, 101, 101]
            &&& h.kind is Commit ==> n == seq![99u8, 111, 109, 109, 105, 116]
            &&& b[n.len() as int] == 32
            &&& d.len() > 0
            &&& forall|i: int| 0 <= i < d.len() ==> 48 <= #[trigger] d[i] <= 57
            &&& radix_value(d, 10) == h.size
            &&& d[0] == 48 ==> h.size == 0 && d.len() == 1
        }),
{
    let n = kind_name(h.kind).unwrap();
    let b = header_bytes(h).unwrap();
    law_decimal_text_canonical(h.size as nat);
    assert(b.take(n.len() as int) =~= n);
    assert(b.skip(n.len() as int + 1) =~= decimal_text(h.size as nat));
}

/// Whether an object reads back as written: a blob, or a tree whose entries
/// read back as written, with a header of the same kind.
pub open spec fn object_roundtrips(o: ObjectView) -> bool {
    match o.body {
        BodyView::Blob(_) => o.header.kind is Blob,
        BodyView::Tree(items) => o.header.kind is Tree && forall|i: int|
            0 <= i < items.len() ==> item_roundtrips(#[trigger] items[i]),
        BodyView::Commit(_) => false,
    }
}

/// Reading back the bytes of an object that reads back as written gives that
/// object, without a panic.
pub proof fn law_object_roundtrip(o: ObjectView)
    requires
        object_roundtrips(o),
    ensures
        body_encodable(o.body),
        object_bytes(o) is Some,
        object_decodable(object_bytes(o).unwrap()),
        object_of(object_bytes(o).unwrap()) == Some(Ok::<ObjectView, GitError>(o)),
{
    law_header_roundtrip(o.header);
    if let BodyView::Tree(items) = o.body {
        law_tree_roundtrip(items);
    }
    let hb = header_bytes(o.header).unwrap();
    let body = body_bytes(o.body);
    let chunk = object_bytes(o).unwrap();
    let tail = seq![GIT_BLOB_DELIMITER] + body;
    assert(chunk =~= hb + tail);
    lemma_first_pos_after(hb, tail, GIT_BLOB_DELIMITER);
    assert(first_pos(tail, GIT_BLOB_DELIMITER) == 0);
    assert(chunk.take(hb.len() as int) =~= hb);
    assert(chunk.skip(hb.len() as int + 1) =~= body);
}

/// Reading the stored form that `pack` wrote for an object that reads back as
/// written gives that object, without a panic: what `pack` ensures of its
/// data is all this needs.
pub proof fn law_store_roundtrip(o: ObjectView, data: Seq<u8>)
    requires
        object_roundtrips(o),
        zlib_inflated(data) == Some((packed_bytes(o), data.len())),
    ensures
        unpack_decodable(data),
        unpack_of(data) == Some(Ok::<ObjectView, GitError>(o)),
{
    law_object_roundtrip(o);
}

/// Reading a stored form is reading the object its stream inflates to: where
/// `file` inflates to `d`, unpacking `file` gives what decoding `d` gives, and
/// panics exactly where that does. What `zip` writes for bytes `d` inflates to
/// `d`, so it unpacks as `d` decodes.
pub proof fn law_unpack_is_decode(file: Seq<u8>, d: Seq<u8>, n: nat)
    requires
        zlib_inflated(file) == Some((d, n)),
    ensures
        unpack_of(file) == object_of(d),
        unpack_decodable(file) == object_decodable(d),
{
}

/// The blob object that `ObjectBuilder::blob(d).build()` gives.
pub open spec fn blob_object(d: Seq<u8>) -> ObjectView {
    ObjectView {
        header: HeaderView { kind: KindView::Blob, size: d.len() as usize },
        body: BodyView::Blob(d),
    }
}

/// What `cat-file` reads from the stored form that `hash-object` wrote for a
/// file is a blob of the file's bytes.
pub proof fn law_hash_object_then_cat_file(d: Seq<u8>, data: Seq<u8>)
    requires
        zlib_inflated(data) == Some((packed_bytes(blob_object(d)), data.len())),
    ensures
        unpack_decodable(data),
        unpack_of(data) == Some(Ok::<ObjectView, GitError>(blob_object(d))),
        object_bytes(blob_object(d)) == Some(
            crate::object::kind::blob_name() + seq![GIT_KIND_DELIMITER] + decimal_text(
                d.len() as usize as nat,
            ) + seq![GIT_BLOB_DELIMITER] + d,
        ),
{
    law_store_roundtrip(blob_object(d), data);
}

} // verus!
