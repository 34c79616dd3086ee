//! Writing tree entries with their hash texts, as text.
use crate::buffers::{bytes_contents, bytes_mut_contents, bytes_mut_new, freeze, put_slice, put_u8};
use crate::object::tree::{TreeItem, TreeItemView};
use crate::object::{GIT_BLOB_DELIMITER, GIT_KIND_DELIMITER};
use crate::seqs::{concat_map, lemma_concat_map_prefix};
use crate::text::text_bytes;
use bytes::{Bytes, BytesMut};
use vstd::prelude::*;

verus! {

/// The text form of an entry: mode, a space, name, a NUL, the hash text.
pub open spec fn item_text(i: TreeItemView) -> Seq<u8> {
    text_bytes(i.mode) + seq![GIT_KIND_DELIMITER] + text_bytes(i.name) + seq![GIT_BLOB_DELIMITER]
        + text_bytes(i.sha)
}

/// The text forms of a list of entries, one after the other.
pub open spec fn items_text(items: Seq<TreeItemView>) -> Seq<u8> {
    concat_map(items, |i: TreeItemView| item_text(i))
}

/// Writes a list of entries in text form.
pub struct Writer<'a> {
    pub items: &'a [TreeItem],
}

impl<'a> Writer<'a> {
    /// The text forms of all entries. The result must fit a buffer.
    pub fn to_bytes(&self) -> (b: Bytes)
        requires
            items_text(self.items@.map_values(|i: TreeItem| i@)).len() <= isize::MAX,
        ensures
            bytes_contents(b) == items_text(self.items@.map_values(|i: TreeItem| i@)),
    {
        let ghost all = self.items@.map_values(|i: TreeItem| i@);
        let mut buffer = bytes_mut_new();
        let mut k: usize = 0;
        while k < self.items.len()
            invariant
                all == self.items@.map_values(|i: TreeItem| i@),
                k <= self.items@.len(),
                items_text(all).len() <= isize::MAX,
                bytes_mut_contents(buffer) == items_text(all.take(k as int)),
            decreases self.items.len() - k,
        {
            proof {
                lemma_concat_map_prefix(all, |i: TreeItemView| item_text(i), k as int + 1);
            }
            self.items[k].write(&mut buffer);
            k = k + 1;
        }
        assert(all.take(k as int) =~= all);
        freeze(buffer)
    }
}

impl TreeItem {
    /// Writes the entry in text form.
    pub fn write(&self, buffer: &mut BytesMut)
        requires
            bytes_mut_contents(*old(buffer)).len() + item_text(self@).len() <= isize::MAX,
        ensures
            bytes_mut_contents(*final(buffer)) == bytes_mut_contents(*old(buffer)) + item_text(
                self@,
            ),
    {
        let ghost start = bytes_mut_contents(*buffer);
        put_slice(buffer, self.mode.as_str().as_bytes());
        put_u8(buffer, GIT_KIND_DELIMITER);
        put_slice(buffer, self.name.as_str().as_bytes());
        put_u8(buffer, GIT_BLOB_DELIMITER);
        put_slice(buffer, self.sha.as_bytes());
        assert(bytes_mut_contents(*buffer) =~= start + item_text(self@));
    }
}

} // verus!
