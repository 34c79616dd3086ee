//! Trees: lists of entries, each with a mode, a name and the hash of an object.
pub mod builder;
pub mod scanner;
pub mod writer;

use crate::buffers::{bytes_mut_contents, put_slice, put_u8};
use crate::error::GitError;
use crate::hexcode::{hex_bytes, hex_decode, is_lower_hex_text, lemma_lower_hex_roundtrip};
use crate::object::tree::scanner::{lemma_scan_items_step, scan_step, ScanStep};
use crate::seqs::{concat_map, first_pos, lemma_concat_map_prefix, lemma_first_pos_after};
use crate::object::tree::scanner::{scan_items, TreeScanner};
use crate::object::{GIT_BLOB_DELIMITER, GIT_KIND_DELIMITER};
use crate::sha::Sha;
use crate::text::text_bytes;
use bytes::BytesMut;
use vstd::prelude::*;

verus! {

/// An entry of a tree.
#[derive(Debug)]
pub struct TreeItem {
    pub mode: String,
    pub name: String,
    pub sha: Sha,
}

/// An entry as a value.
pub struct TreeItemView {
    pub mode: Seq<char>,
    pub name: Seq<char>,
    pub sha: Seq<char>,
}

impl View for TreeItem {
    type V = TreeItemView;

    open spec fn view(&self) -> TreeItemView {
        TreeItemView { mode: self.mode@, name: self.name@, sha: self.sha@ }
    }
}

/// A tree.
#[derive(Debug)]
pub struct Tree {
    items: Vec<TreeItem>,
}

impl View for Tree {
    type V = Seq<TreeItemView>;

    closed spec fn view(&self) -> Seq<TreeItemView> {
        self.items@.map_values(|i: TreeItem| i@)
    }
}

/// Whether an entry can be written: its hash text must be hexadecimal.
pub open spec fn item_encodable(i: TreeItemView) -> bool {
    hex_bytes(text_bytes(i.sha)) is Some
}

/// The bytes of an entry: mode, a space, name, a NUL, and the raw hash that
/// the hash text stands for.
pub open spec fn item_bytes(i: TreeItemView) -> Seq<u8> {
    text_bytes(i.mode) + seq![GIT_KIND_DELIMITER] + text_bytes(i.name) + seq![GIT_BLOB_DELIMITER]
        + hex_bytes(text_bytes(i.sha)).unwrap()
}

/// The bytes of a list of entries, one after the other.
pub open spec fn items_bytes(items: Seq<TreeItemView>) -> Seq<u8> {
    concat_map(items, |i: TreeItemView| item_bytes(i))
}

/// Whether every entry can be written.
pub open spec fn items_encodable(items: Seq<TreeItemView>) -> bool {
    forall|i: int| 0 <= i < items.len() ==> item_encodable(#[trigger] items[i])
}

impl TreeItem {
    /// Writes the entry's bytes. Decoding the hash text panics unless it is
    /// hexadecimal; `requires` leaves that out.
    pub fn encode(&self, buffer: &mut BytesMut) -> (r: Result<(), GitError>)
        requires
            item_encodable(self@),
            bytes_mut_contents(*old(buffer)).len() + item_bytes(self@).len() <= isize::MAX,
        ensures
            r is Ok,
            bytes_mut_contents(*final(buffer)) == bytes_mut_contents(*old(buffer)) + item_bytes(
                self@,
            ),
    {
        let ghost start = bytes_mut_contents(*buffer);
        put_slice(buffer, self.mode.as_str().as_bytes());
        put_u8(buffer, GIT_KIND_DELIMITER);
        put_slice(buffer, self.name.as_str().as_bytes());
        put_u8(buffer, GIT_BLOB_DELIMITER);
        let raw = hex_decode(self.sha.as_bytes());
        match raw {
            Some(sha) => {
                put_slice(buffer, sha.as_slice());
            },
            None => {
                assert(false);
            },
        }
        assert(bytes_mut_contents(*buffer) =~= start + item_bytes(self@));
        Ok(())
    }

    /// Whether the entry can be written: the test that `encode` asks for.
    pub fn encodable(&self) -> (b: bool)
        ensures
            b == item_encodable(self@),
    {
        hex_decode(self.sha.as_bytes()).is_some()
    }

    /// A copy of this entry.
    pub fn duplicate(&self) -> (r: TreeItem)
        ensures
            r@ == self@,
    {
        TreeItem { mode: self.mode.clone(), name: self.name.clone(), sha: self.sha.duplicate() }
    }
}

impl Tree {
    /// A tree of the given entries.
    pub fn new(items: Vec<TreeItem>) -> (t: Tree)
        ensures
            t@ == items@.map_values(|i: TreeItem| i@),
    {
        Tree { items }
    }

    /// The entries.
    pub fn items(&self) -> (v: &Vec<TreeItem>)
        ensures
            v@.map_values(|i: TreeItem| i@) == self@,
    {
        &self.items
    }

    /// Writes every entry in order.
    pub fn encode(&self, buffer: &mut BytesMut) -> (r: Result<(), GitError>)
        requires
            items_encodable(self@),
            bytes_mut_contents(*old(buffer)).len() + items_bytes(self@).len() <= isize::MAX,
        ensures
            r is Ok,
            bytes_mut_contents(*final(buffer)) == bytes_mut_contents(*old(buffer)) + items_bytes(
                self@,
            ),
    {
        let ghost start = bytes_mut_contents(*buffer);
        let ghost all = self@;
        let mut k: usize = 0;
        while k < self.items.len()
            invariant
                all == self@,
                all.len() == self.items@.len(),
                k <= all.len(),
                items_encodable(all),
                start.len() + items_bytes(all).len() <= isize::MAX,
                bytes_mut_contents(*buffer) == start + items_bytes(all.take(k as int)),
            decreases self.items.len() - k,
        {
            proof {
                lemma_concat_map_prefix(all, |i: TreeItemView| item_bytes(i), k as int + 1);
                assert(all.take(k as int + 1).drop_last() =~= all.take(k as int));
                assert(all[k as int] == self.items@[k as int]@);
            }
            let item = &self.items[k];
            item.encode(buffer)?;
            k = k + 1;
        }
        assert(all.take(k as int) =~= all);
        Ok(())
    }

    /// Reads the entries that a scan of `chunk` finds. The scan panics where a
    /// name is followed by fewer than 20 bytes; `requires` leaves that out.
    pub fn decode(chunk: &[u8]) -> (r: Result<Tree, GitError>)
        requires
            scan_items(chunk@) is Some,
        ensures
            r matches Ok(t) && t@ == scan_items(chunk@).unwrap(),
    {
        let mut scanner = TreeScanner { data: chunk };
        let mut items: Vec<TreeItem> = Vec::new();
        loop
            invariant
                scan_items(scanner.data@) is Some,
                scan_items(chunk@) == Some(
                    items@.map_values(|i: TreeItem| i@) + scan_items(scanner.data@).unwrap(),
                ),
            ensures
                scan_items(chunk@) == Some(items@.map_values(|i: TreeItem| i@)),
            decreases scanner.data@.len(),
        {
            let ghost before = scanner.data@;
            proof {
                scanner::lemma_scan_items_step(before);
            }
            match scanner.next_item() {
                Some(item) => {
                    let ghost old_items = items@.map_values(|i: TreeItem| i@);
                    items.push(item);
                    proof {
                        assert(items@.map_values(|i: TreeItem| i@) =~= old_items.push(item@));
                        let rest = scan_items(scanner.data@).unwrap();
                        assert(old_items.push(item@) + rest =~= old_items + (seq![item@] + rest));
                    }
                },
                None => {
                    proof {
                        assert(scan_items(scanner.data@) == Some(Seq::<TreeItemView>::empty()));
                        let v = items@.map_values(|i: TreeItem| i@);
                        assert(v + Seq::<TreeItemView>::empty() =~= v);
                    }
                    break ;
                },
            }
        }
        Ok(Tree { items })
    }
}

/// Whether an entry reads back as written: its mode's bytes hold no space,
/// its name's bytes no NUL, and its hash text is 40 lowercase hexadecimal digits.
pub open spec fn item_roundtrips(i: TreeItemView) -> bool {
    &&& forall|j: int| 0 <= j < text_bytes(i.mode).len() ==> #[trigger] text_bytes(i.mode)[j]
        != GIT_KIND_DELIMITER
    &&& forall|j: int| 0 <= j < text_bytes(i.name).len() ==> #[trigger] text_bytes(i.name)[j]
        != GIT_BLOB_DELIMITER
    &&& i.sha.len() == 40
    &&& is_lower_hex_text(i.sha)
}

/// The bytes of an entry followed by more entries are the entry's bytes,
/// then theirs.
pub proof fn lemma_items_bytes_cons(it: TreeItemView, rest: Seq<TreeItemView>)
    ensures
        items_bytes(seq![it] + rest) == item_bytes(it) + items_bytes(rest),
    decreases rest.len(),
{
    if rest.len() == 0 {
        assert(seq![it] + rest =~= seq![it]);
        assert(seq![it].drop_last() =~= Seq::<TreeItemView>::empty());
        assert(items_bytes(seq![it]) == items_bytes(Seq::<TreeItemView>::empty()) + item_bytes(it));
        assert(item_bytes(it) + Seq::<u8>::empty() =~= item_bytes(it));
        assert(Seq::<u8>::empty() + item_bytes(it) =~= item_bytes(it));
    } else {
        let all = seq![it] + rest;
        assert(all.drop_last() =~= seq![it] + rest.drop_last());
        assert(all.last() == rest.last());
        lemma_items_bytes_cons(it, rest.drop_last());
        assert(items_bytes(all) == items_bytes(all.drop_last()) + item_bytes(all.last()));
        assert(item_bytes(it) + items_bytes(rest.drop_last()) + item_bytes(rest.last()) =~= item_bytes(
            it,
        ) + (items_bytes(rest.drop_last()) + item_bytes(rest.last())));
    }
}

/// A scan finds an entry that reads back as written at the start of its bytes.
pub proof fn lemma_scan_step_item(it: TreeItemView, tail: Seq<u8>)
    requires
        item_roundtrips(it),
    ensures
        item_encodable(it),
        scan_step(item_bytes(it) + tail) == ScanStep::Item(it, item_bytes(it).len() as int),
        (item_bytes(it) + tail).skip(item_bytes(it).len() as int) == tail,
{
    lemma_lower_hex_roundtrip(it.sha);
    let mb = text_bytes(it.mode);
    let nb = text_bytes(it.name);
    let raw = hex_bytes(text_bytes(it.sha)).unwrap();
    let data = item_bytes(it) + tail;
    let r1 = seq![GIT_KIND_DELIMITER] + nb + seq![GIT_BLOB_DELIMITER] + raw + tail;
    assert(data =~= mb + r1);
    lemma_first_pos_after(mb, r1, GIT_KIND_DELIMITER);
    assert(first_pos(r1, GIT_KIND_DELIMITER) == 0);
    let m = mb.len() as int;
    assert(data.take(m) =~= mb);
    vstd::utf8::encode_utf8_valid_utf8(it.mode);
    vstd::utf8::encode_utf8_decode_utf8(it.mode);
    let rest = data.skip(m + 1);
    let r2 = seq![GIT_BLOB_DELIMITER] + raw + tail;
    assert(rest =~= nb + r2);
    lemma_first_pos_after(nb, r2, GIT_BLOB_DELIMITER);
    assert(first_pos(r2, GIT_BLOB_DELIMITER) == 0);
    let n = nb.len() as int;
    assert(rest.take(n) =~= nb);
    vstd::utf8::encode_utf8_valid_utf8(it.name);
    vstd::utf8::encode_utf8_decode_utf8(it.name);
    let t = rest.skip(n + 1);
    assert(t =~= raw + tail);
    assert(t.take(20) =~= raw);
    assert(data.skip(m + 1 + n + 1 + 20) =~= tail);
}

/// Writing entries that read back as written and scanning the bytes gives
/// those entries.
pub proof fn law_tree_roundtrip(items: Seq<TreeItemView>)
    requires
        forall|i: int| 0 <= i < items.len() ==> item_roundtrips(#[trigger] items[i]),
    ensures
        items_encodable(items),
        scan_items(items_bytes(items)) == Some(items),
    decreases items.len(),
{
    assert forall|i: int| 0 <= i < items.len() implies item_encodable(#[trigger] items[i]) by {
        lemma_scan_step_item(items[i], Seq::<u8>::empty());
    }
    if items.len() == 0 {
        assert(first_pos(Seq::<u8>::empty(), GIT_KIND_DELIMITER) == 0);
        assert(scan_step(items_bytes(items)) == ScanStep::End);
        assert(items =~= Seq::<TreeItemView>::empty());
    } else {
        let it = items[0];
        let rest = items.drop_first();
        assert(items =~= seq![it] + rest);
        lemma_items_bytes_cons(it, rest);
        assert forall|i: int| 0 <= i < rest.len() implies item_roundtrips(#[trigger] rest[i]) by {
            assert(rest[i] == items[i + 1]);
        }
        law_tree_roundtrip(rest);
        lemma_scan_step_item(it, items_bytes(rest));
        let data = items_bytes(items);
        assert(data == item_bytes(it) + items_bytes(rest));
        lemma_scan_items_step(data);
        assert(seq![it] + rest =~= items);
    }
}

} // verus!
