//! The kinds of objects, and the names that object headers give them.
use crate::buffers::{bytes_mut_contents, put_slice};
use crate::error::GitError;
use crate::seqs::slice_eq;
use crate::sha::Sha;
use bytes::BytesMut;
use vstd::prelude::*;

verus! {

/// The kind of an object.
#[derive(PartialEq, Clone, Debug)]
pub enum Kind {
    Blob,
    Tree,
    Commit,
    Tag,
    ObjectRef(Sha),
    ObjectOffet(i32),
}

/// A kind as a value: a reference names its object by hash text.
pub enum KindView {
    Blob,
    Tree,
    Commit,
    Tag,
    ObjectRef(Seq<char>),
    ObjectOffet(i32),
}

impl View for Kind {
    type V = KindView;

    open spec fn view(&self) -> KindView {
        match self {
            Kind::Blob => KindView::Blob,
            Kind::Tree => KindView::Tree,
            Kind::Commit => KindView::Commit,
            Kind::Tag => KindView::Tag,
            Kind::ObjectRef(s) => KindView::ObjectRef(s@),
            Kind::ObjectOffet(o) => KindView::ObjectOffet(*o),
        }
    }
}

/// `blob`
pub open spec fn blob_name() -> Seq<u8> {
    seq![98u8, 108, 111, 98]
}

/// `tree`
pub open spec fn tree_name() -> Seq<u8> {
    seq![116u8, 114, 101, 101]
}

/// `commit`
pub open spec fn commit_name() -> Seq<u8> {
    seq![99u8, 111, 109, 109, 105, 116]
}

/// The name that a header gives kind `k`; only blobs, trees and commits have one.
pub open spec fn kind_name(k: KindView) -> Option<Seq<u8>> {
    match k {
        KindView::Blob => Some(blob_name()),
        KindView::Tree => Some(tree_name()),
        KindView::Commit => Some(commit_name()),
        _ => None,
    }
}

/// The kind that the name `n` stands for.
pub open spec fn kind_of_name(n: Seq<u8>) -> Option<KindView> {
    if n == blob_name() {
        Some(KindView::Blob)
    } else if n == tree_name() {
        Some(KindView::Tree)
    } else if n == commit_name() {
        Some(KindView::Commit)
    } else {
        None
    }
}

/// Every byte of a kind name is a lowercase letter.
pub open spec fn is_lower_word(n: Seq<u8>) -> bool {
    forall|i: int| 0 <= i < n.len() ==> 97 <= #[trigger] n[i] <= 122
}

/// Reading back the name of a kind gives that kind.
pub proof fn law_kind_name_roundtrip(k: KindView)
    ensures
        kind_name(k) matches Some(n) ==> kind_of_name(n) == Some(k) && is_lower_word(n),
{
    assert(blob_name() != tree_name()) by {
        assert(blob_name()[0] != tree_name()[0]);
    }
    assert(blob_name() != commit_name()) by {
        assert(blob_name().len() != commit_name().len());
    }
    assert(tree_name() != commit_name()) by {
        assert(tree_name().len() != commit_name().len());
    }
}

pub(crate) fn blob_name_bytes() -> (v: Vec<u8>)
    ensures
        v@ == blob_name(),
{
    let v: Vec<u8> = vec![98u8, 108, 111, 98];
    assert(v@ =~= blob_name());
    v
}

pub(crate) fn tree_name_bytes() -> (v: Vec<u8>)
    ensures
        v@ == tree_name(),
{
    let v: Vec<u8> = vec![116u8, 114, 101, 101];
    assert(v@ =~= tree_name());
    v
}

pub(crate) fn commit_name_bytes() -> (v: Vec<u8>)
    ensures
        v@ == commit_name(),
{
    let v: Vec<u8> = vec![99u8, 111, 109, 109, 105, 116];
    assert(v@ =~= commit_name());
    v
}

impl Kind {
    /// Writes the kind's name; kinds without a name are refused and nothing is
    /// written.
    pub fn encode(&self, buffer: &mut BytesMut) -> (r: Result<(), GitError>)
        requires
            kind_name(self@) matches Some(n) ==> bytes_mut_contents(*old(buffer)).len() + n.len()
                <= isize::MAX,
        ensures
            match kind_name(self@) {
                Some(n) => r is Ok && bytes_mut_contents(*final(buffer)) == bytes_mut_contents(
                    *old(buffer),
                ) + n,
                None => r == Err::<(), GitError>(GitError::UnsupportedKind) && bytes_mut_contents(
                    *final(buffer),
                ) == bytes_mut_contents(*old(buffer)),
            },
    {
        match self {
            Kind::Blob => {
                let n = blob_name_bytes();
                put_slice(buffer, n.as_slice());
            },
            Kind::Tree => {
                let n = tree_name_bytes();
                put_slice(buffer, n.as_slice());
            },
            Kind::Commit => {
                let n = commit_name_bytes();
                put_slice(buffer, n.as_slice());
            },
            _ => return Err(GitError::UnsupportedKind),
        }
        Ok(())
    }

    /// Reads a kind from its name: `blob`, `tree` or `commit`.
    pub fn decode(chunk: &[u8]) -> (r: Result<Kind, GitError>)
        ensures
            match r {
                Ok(k) => kind_of_name(chunk@) == Some(k@),
                Err(e) => kind_of_name(chunk@) is None && e == GitError::UnknownKind,
            },
    {
        let b = blob_name_bytes();
        let t = tree_name_bytes();
        let c = commit_name_bytes();
        if slice_eq(chunk, b.as_slice()) {
            Ok(Kind::Blob)
        } else if slice_eq(chunk, t.as_slice()) {
            Ok(Kind::Tree)
        } else if slice_eq(chunk, c.as_slice()) {
            Ok(Kind::Commit)
        } else {
            Err(GitError::UnknownKind)
        }
    }

    /// A copy of this kind.
    pub fn duplicate(&self) -> (k: Kind)
        ensures
            k@ == self@,
    {
        match self {
            Kind::Blob => Kind::Blob,
            Kind::Tree => Kind::Tree,
            Kind::Commit => Kind::Commit,
            Kind::Tag => Kind::Tag,
            Kind::ObjectRef(s) => Kind::ObjectRef(s.duplicate()),
            Kind::ObjectOffet(o) => Kind::ObjectOffet(*o),
        }
    }

    /// Whether this is the tree kind.
    pub fn is_tree(&self) -> (b: bool)
        ensures
            b == (self@ is Tree),
    {
        match self {
            Kind::Tree => true,
            _ => false,
        }
    }
}

} // verus!
