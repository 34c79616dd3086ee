//! What the commands compute between reading and writing files.
use crate::error::GitError;
use crate::object::kind::{Kind, KindView};
use crate::object::tree::{items_bytes, items_encodable, Tree, TreeItem, TreeItemView};
use crate::object::{
    body_encodable, object_fits, packed_bytes, Body, BodyView, Header, HeaderView, Object,
    ObjectView,
};
use crate::buffers::{bytes_mut_len, bytes_mut_new};
use crate::hashing::sha1_of;
use crate::hexcode::hex_text;
use crate::seqs::{copy_range, slice_eq};
use crate::sha::{is_sha_text, Sha};
use vstd::prelude::*;
use vstd::string::StringSliceAdditionalSpecFns;

verus! {

/// The first step of `ls-tree`: only listing names is supported, and the
/// object's name must be a hash text.
pub fn ls_tree_request(names: bool, sha: &str) -> (r: Result<Sha, GitError>)
    ensures
        match r {
            Ok(s) => names && is_sha_text(sha@) && s@ == sha@,
            Err(e) => (!names && e == GitError::OnlyNamesSupported) || (names && !is_sha_text(sha@)
                && e == GitError::UnexpectedShaLength),
        },
{
    if !names {
        return Err(GitError::OnlyNamesSupported);
    }
    Sha::from_str(sha)
}

/// What `cat-file` prints: the contents of a blob; other objects are refused.
pub fn blob_contents(obj: &Object) -> (r: Result<Vec<u8>, GitError>)
    ensures
        match obj@.body {
            BodyView::Blob(d) => r matches Ok(v) && v@ == d,
            _ => r matches Err(e) && e == GitError::NotABlob,
        },
{
    match obj.body() {
        Body::Blob(blob) => {
            let b = blob.as_bytes();
            Ok(copy_range(b, 0, b.len()))
        },
        _ => Err(GitError::NotABlob),
    }
}

/// What `ls-tree --name-only` prints: the names of a tree's entries, in
/// order; other objects are refused.
pub fn tree_names(obj: &Object) -> (r: Result<Vec<String>, GitError>)
    ensures
        match obj@.body {
            BodyView::Tree(items) => r matches Ok(v) && v@.map_values(|s: String| s@)
                == items.map_values(|i: TreeItemView| i.name),
            _ => r matches Err(e) && e == GitError::NotATree,
        },
{
    match obj.body() {
        Body::Tree(tree) => {
            let items = tree.items();
            let ghost all = tree@;
            let mut names: Vec<String> = Vec::new();
            let mut k: usize = 0;
            while k < items.len()
                invariant
                    all == items@.map_values(|i: TreeItem| i@),
                    k <= items@.len(),
                    names@.map_values(|s: String| s@) == all.take(k as int).map_values(
                        |i: TreeItemView| i.name,
                    ),
                decreases items.len() - k,
            {
                let name = items[k].name.clone();
                assert(name@ == all[k as int].name);
                let ghost old_names = names@.map_values(|s: String| s@);
                names.push(name);
                assert(names@.map_values(|s: String| s@) =~= old_names.push(name@));
                assert(all.take(k + 1).map_values(|i: TreeItemView| i.name) =~= all.take(
                    k as int,
                ).map_values(|i: TreeItemView| i.name).push(all[k as int].name));
                k = k + 1;
                assert(names@.map_values(|s: String| s@) =~= all.take(k as int).map_values(
                    |i: TreeItemView| i.name,
                ));
            }
            assert(all.take(k as int) =~= all);
            Ok(names)
        },
        _ => Err(GitError::NotATree),
    }
}

/// `111`, the mode given to every entry that `write-tree` writes.
pub open spec fn entry_mode() -> Seq<char> {
    seq!['1', '1', '1']
}

/// The entry that `write-tree` writes for a file or directory named `name`
/// whose object is `obj`: mode `111`, the name, and the name of the object's
/// stored form. Packing fails only where the object's bytes are not 20 long.
pub fn tree_entry(name: String, obj: &Object) -> (r: Result<TreeItem, GitError>)
    requires
        body_encodable(obj@.body),
        object_fits(obj@),
    ensures
        match r {
            Ok(it) => packed_bytes(obj@).len() == 20 && it@ == (TreeItemView {
                mode: entry_mode(),
                name: name@,
                sha: hex_text(sha1_of(packed_bytes(obj@))),
            }),
            Err(e) => packed_bytes(obj@).len() != 20 && e == GitError::ShaChunkLength,
        },
{
    let (sha, _) = obj.pack()?;
    let mode = "111";
    proof {
        reveal_strlit("111");
        assert(mode@ =~= entry_mode());
    }
    Ok(TreeItem { mode: mode.to_owned(), name, sha })
}

/// The tree object that `write-tree` writes for a directory whose entries are
/// `items`: its header holds the size of the entries' bytes.
pub fn tree_object(items: Vec<TreeItem>) -> (o: Object)
    requires
        items_encodable(items@.map_values(|i: TreeItem| i@)),
        items_bytes(items@.map_values(|i: TreeItem| i@)).len() <= isize::MAX,
    ensures
        o@ == (ObjectView {
            header: HeaderView {
                kind: KindView::Tree,
                size: items_bytes(items@.map_values(|i: TreeItem| i@)).len() as usize,
            },
            body: BodyView::Tree(items@.map_values(|i: TreeItem| i@)),
        }),
{
    let tree = Tree::new(items);
    let mut buffer = bytes_mut_new();
    let _ = tree.encode(&mut buffer);
    let size = bytes_mut_len(&buffer);
    let body = Body::Tree(tree);
    let header = Header::new(Kind::Tree, size);
    Object::new(header, body)
}

/// Whether `write-tree` leaves out the directory entry named `name`: it does
/// for every name listed in `skip`.
pub fn is_skipped(name: &str, skip: &[&str]) -> (b: bool)
    ensures
        b == exists|i: int| 0 <= i < skip@.len() && (#[trigger] skip@[i])@ == name@,
{
    let mut k: usize = 0;
    while k < skip.len()
        invariant
            k <= skip@.len(),
            forall|i: int| 0 <= i < k ==> (#[trigger] skip@[i])@ != name@,
        decreases skip.len() - k,
    {
        let same = slice_eq(skip[k].as_bytes(), name.as_bytes());
        proof {
            vstd::utf8::encode_utf8_decode_utf8(skip@[k as int]@);
            vstd::utf8::encode_utf8_decode_utf8(name@);
        }
        if same {
            return true;
        }
        k = k + 1;
    }
    false
}

} // verus!
