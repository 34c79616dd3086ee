//! Commits: a tree, an optional parent, author, committer and message.
use crate::buffers::{bytes_mut_contents, put_slice, put_u8};
use crate::error::GitError;
use crate::sha::Sha;
use crate::text::text_bytes;
use bytes::BytesMut;
use vstd::prelude::*;

verus! {

/// The byte that ends each line of a commit.
pub const GIT_COMMIT_NEWLINE: u8 = 10;

/// A commit.
#[derive(Debug)]
pub struct Commit {
    pub tree: Sha,
    pub parent: Option<Sha>,
    pub author: String,
    pub committer: String,
    pub message: String,
}

/// A commit as a value: hash texts and text.
pub struct CommitView {
    pub tree: Seq<char>,
    pub parent: Option<Seq<char>>,
    pub author: Seq<char>,
    pub committer: Seq<char>,
    pub message: Seq<char>,
}

impl View for Commit {
    type V = CommitView;

    open spec fn view(&self) -> CommitView {
        CommitView {
            tree: self.tree@,
            parent: match self.parent {
                Some(p) => Some(p@),
                None => None,
            },
            author: self.author@,
            committer: self.committer@,
            message: self.message@,
        }
    }
}

/// `tree `
pub open spec fn tree_prefix() -> Seq<u8> {
    seq![116u8, 114, 101, 101, 32]
}

/// `parent `
pub open spec fn parent_prefix() -> Seq<u8> {
    seq![112u8, 97, 114, 101, 110, 116, 32]
}

/// `author `
pub open spec fn author_prefix() -> Seq<u8> {
    seq![97u8, 117, 116, 104, 111, 114, 32]
}

/// `committer `
pub open spec fn committer_prefix() -> Seq<u8> {
    seq![99u8, 111, 109, 109, 105, 116, 116, 101, 114, 32]
}

/// `1493170892 -0500`, the time written for author and committer.
pub open spec fn commit_time() -> Seq<u8> {
    seq![49u8, 52, 57, 51, 49, 55, 48, 56, 57, 50, 32, 45, 48, 53, 48, 48]
}

/// The first line of a commit: `tree <hash>` and a newline.
pub open spec fn tree_line(c: CommitView) -> Seq<u8> {
    tree_prefix() + text_bytes(c.tree) + seq![GIT_COMMIT_NEWLINE]
}

/// `parent <hash>` where there is a parent, nothing otherwise.
pub open spec fn parent_part(c: CommitView) -> Seq<u8> {
    match c.parent {
        Some(p) => parent_prefix() + text_bytes(p),
        None => Seq::<u8>::empty(),
    }
}

/// A person's line: the prefix, the name, a space, the time and a newline.
pub open spec fn person_line(prefix: Seq<u8>, name: Seq<char>) -> Seq<u8> {
    prefix + text_bytes(name) + seq![32u8] + commit_time() + seq![GIT_COMMIT_NEWLINE]
}

/// The bytes of a commit: `tree <hash>`, newline, `parent <hash>` where there
/// is a parent, newline, `author <name> <time>`, newline,
/// `committer <name> <time>`, newline, newline, the message, newline.
pub open spec fn commit_bytes(c: CommitView) -> Seq<u8> {
    tree_line(c) + parent_part(c) + seq![GIT_COMMIT_NEWLINE] + person_line(author_prefix(), c.author)
        + person_line(committer_prefix(), c.committer) + seq![GIT_COMMIT_NEWLINE] + text_bytes(
        c.message,
    ) + seq![GIT_COMMIT_NEWLINE]
}

/// The lines of a written commit, byte by byte: `tree ` and the tree's hash
/// text, a newline; `parent ` and the parent's hash text where there is one, a
/// newline; `author `, the author field, ` 1493170892 -0500`, a newline;
/// `committer `, the committer field, ` 1493170892 -0500`, a newline; an empty
/// line; the message and a newline. The author line names the author field and
/// the committer line the committer field, whatever the other holds.
pub proof fn law_commit_lines(c: CommitView)
    ensures
        ({
            let b = commit_bytes(c);
            let tree = text_bytes(c.tree);
            let time_end = seq![32u8, 49, 52, 57, 51, 49, 55, 48, 56, 57, 50, 32, 45, 48, 53, 48, 48, 10];
            let author_line = seq![97u8, 117, 116, 104, 111, 114, 32] + text_bytes(c.author) + time_end;
            let committer_line = seq![99u8, 111, 109, 109, 105, 116, 116, 101, 114, 32] + text_bytes(
                c.committer,
            ) + time_end;
            let t: int = 5 + tree.len() as int;
            let p: int = match c.parent {
                Some(x) => t + 7 + text_bytes(x).len(),
                None => t,
            };
            let a: int = p + 1 + 1;
            let m: int = a + author_line.len();
            let e: int = m + committer_line.len();
            &&& b.subrange(0, 5) == seq![116u8, 114, 101, 101, 32]
            &&& b.subrange(5, t) == tree
            &&& b[t] == 10
            &&& c.parent matches Some(x) ==> b.subrange(t + 1, t + 8) == seq![
                112u8,
                97,
                114,
                101,
                110,
                116,
                32,
            ] && b.subrange(t + 8, p + 1) == text_bytes(x)
            &&& b[p + 1] == 10
            &&& b.subrange(a, m) == author_line
            &&& b.subrange(m, e) == committer_line
            &&& b.skip(e) == seq![10u8] + text_bytes(c.message) + seq![10u8]
        }),
{
    let b = commit_bytes(c);
    let tree = text_bytes(c.tree);
    let t: int = 5 + tree.len() as int;
    let time_end = seq![32u8, 49, 52, 57, 51, 49, 55, 48, 56, 57, 50, 32, 45, 48, 53, 48, 48, 10];
    let author_line = seq![97u8, 117, 116, 104, 111, 114, 32] + text_bytes(c.author) + time_end;
    let committer_line = seq![99u8, 111, 109, 109, 105, 116, 116, 101, 114, 32] + text_bytes(
        c.committer,
    ) + time_end;
    assert(person_line(author_prefix(), c.author) =~= author_line);
    assert(person_line(committer_prefix(), c.committer) =~= committer_line);
    let head = tree_line(c) + parent_part(c) + seq![GIT_COMMIT_NEWLINE];
    let tail = seq![10u8] + text_bytes(c.message) + seq![10u8];
    assert(b =~= head + author_line + committer_line + tail);
    let p: int = head.len() - 2;
    let a = head.len() as int;
    let m: int = a + author_line.len();
    let e: int = m + committer_line.len();
    assert(b.subrange(0, 5) =~= seq![116u8, 114, 101, 101, 32]);
    assert(b.subrange(5, t) =~= tree);
    assert(b.subrange(a, m) =~= author_line);
    assert(b.subrange(m, e) =~= committer_line);
    assert(b.skip(e) =~= tail);
    if let Some(x) = c.parent {
        assert(b.subrange(t + 1, t + 8) =~= seq![112u8, 97, 114, 101, 110, 116, 32]);
        assert(b.subrange(t + 8, p + 1) =~= text_bytes(x));
    }
}

fn put_person_line(buffer: &mut BytesMut, prefix: &[u8], name: &String, time: &[u8])
    requires
        time@ == commit_time(),
        bytes_mut_contents(*old(buffer)).len() + person_line(prefix@, name@).len() <= isize::MAX,
    ensures
        bytes_mut_contents(*final(buffer)) == bytes_mut_contents(*old(buffer)) + person_line(
            prefix@,
            name@,
        ),
{
    let ghost start = bytes_mut_contents(*buffer);
    put_slice(buffer, prefix);
    put_slice(buffer, name.as_str().as_bytes());
    put_u8(buffer, 32);
    put_slice(buffer, time);
    put_u8(buffer, GIT_COMMIT_NEWLINE);
    assert(bytes_mut_contents(*buffer) =~= start + person_line(prefix@, name@));
}

fn tree_prefix_bytes() -> (v: Vec<u8>)
    ensures
        v@ == tree_prefix(),
{
    let v: Vec<u8> = vec![116u8, 114, 101, 101, 32];
    assert(v@ =~= tree_prefix());
    v
}

fn parent_prefix_bytes() -> (v: Vec<u8>)
    ensures
        v@ == parent_prefix(),
{
    let v: Vec<u8> = vec![112u8, 97, 114, 101, 110, 116, 32];
    assert(v@ =~= parent_prefix());
    v
}

fn author_prefix_bytes() -> (v: Vec<u8>)
    ensures
        v@ == author_prefix(),
{
    let v: Vec<u8> = vec![97u8, 117, 116, 104, 111, 114, 32];
    assert(v@ =~= author_prefix());
    v
}

fn committer_prefix_bytes() -> (v: Vec<u8>)
    ensures
        v@ == committer_prefix(),
{
    let v: Vec<u8> = vec![99u8, 111, 109, 109, 105, 116, 116, 101, 114, 32];
    assert(v@ =~= committer_prefix());
    v
}

fn commit_time_bytes() -> (v: Vec<u8>)
    ensures
        v@ == commit_time(),
{
    let v: Vec<u8> = vec![49u8, 52, 57, 51, 49, 55, 48, 56, 57, 50, 32, 45, 48, 53, 48, 48];
    assert(v@ =~= commit_time());
    v
}

impl Commit {
    /// Writes the commit's bytes; this never fails.
    pub fn encode(&self, buffer: &mut BytesMut) -> (r: Result<(), GitError>)
        requires
            bytes_mut_contents(*old(buffer)).len() + commit_bytes(self@).len() <= isize::MAX,
        ensures
            r is Ok,
            bytes_mut_contents(*final(buffer)) == bytes_mut_contents(*old(buffer)) + commit_bytes(
                self@,
            ),
    {
        let ghost start = bytes_mut_contents(*buffer);
        let ghost c = self@;
        let tp = tree_prefix_bytes();
        put_slice(buffer, tp.as_slice());
        put_slice(buffer, self.tree.as_bytes());
        put_u8(buffer, GIT_COMMIT_NEWLINE);
        assert(bytes_mut_contents(*buffer) =~= start + tree_line(c));
        if let Some(parent_sha) = &self.parent {
            let pp = parent_prefix_bytes();
            put_slice(buffer, pp.as_slice());
            put_slice(buffer, parent_sha.as_bytes());
        }
        assert(bytes_mut_contents(*buffer) =~= start + tree_line(c) + parent_part(c));
        put_u8(buffer, GIT_COMMIT_NEWLINE);
        let ghost head = tree_line(c) + parent_part(c) + seq![GIT_COMMIT_NEWLINE];
        assert(bytes_mut_contents(*buffer) =~= start + head);
        let ap = author_prefix_bytes();
        let time = commit_time_bytes();
        put_person_line(buffer, ap.as_slice(), &self.author, time.as_slice());
        let cp = committer_prefix_bytes();
        put_person_line(buffer, cp.as_slice(), &self.committer, time.as_slice());
        let ghost mid = head + person_line(author_prefix(), c.author) + person_line(
            committer_prefix(),
            c.committer,
        );
        assert(bytes_mut_contents(*buffer) =~= start + mid);
        put_u8(buffer, GIT_COMMIT_NEWLINE);
        put_slice(buffer, self.message.as_str().as_bytes());
        put_u8(buffer, GIT_COMMIT_NEWLINE);
        assert(bytes_mut_contents(*buffer) =~= start + commit_bytes(c));
        Ok(())
    }
}

} // verus!
