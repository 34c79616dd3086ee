//! Reading the entries of a tree, one at a time.
use crate::hexcode::{hex_encode, hex_text};
use crate::object::tree::{TreeItem, TreeItemView};
use crate::object::{GIT_BLOB_DELIMITER, GIT_KIND_DELIMITER};
use crate::seqs::{find_byte, first_pos, lemma_first_pos};
use crate::sha::{lemma_hex_text_ascii, Sha};
use crate::text::utf8_str;
use vstd::prelude::*;
use vstd::utf8::{decode_utf8, valid_utf8};

verus! {

/// What one step of a scan finds at the start of `data`.
pub enum ScanStep {
    /// No further entry: a missing delimiter, or a mode or name that is not UTF-8.
    End,
    /// A name followed by fewer than 20 bytes: the scan panics.
    Panic,
    /// An entry, and the number of bytes it takes.
    Item(TreeItemView, int),
}

/// One step of a scan: the mode runs to the first space and the name to the
/// next NUL, both UTF-8; the 20 bytes after the NUL are the raw hash, whose
/// lowercase hexadecimal text names the entry's object.
pub open spec fn scan_step(data: Seq<u8>) -> ScanStep {
    let m = first_pos(data, GIT_KIND_DELIMITER);
    if m == data.len() {
        ScanStep::End
    } else if !valid_utf8(data.take(m)) {
        ScanStep::End
    } else {
        let rest = data.skip(m + 1);
        let n = first_pos(rest, GIT_BLOB_DELIMITER);
        if n == rest.len() {
            ScanStep::End
        } else if !valid_utf8(rest.take(n)) {
            ScanStep::End
        } else {
            let tail = rest.skip(n + 1);
            if tail.len() < 20 {
                ScanStep::Panic
            } else {
                ScanStep::Item(
                    TreeItemView {
                        mode: decode_utf8(data.take(m)),
                        name: decode_utf8(rest.take(n)),
                        sha: hex_text(tail.take(20)),
                    },
                    m + 1 + n + 1 + 20,
                )
            }
        }
    }
}

/// The entries that scanning `data` until its first `End` finds, or `None`
/// where the scan panics first.
pub open spec fn scan_items(data: Seq<u8>) -> Option<Seq<TreeItemView>>
    decreases data.len(),
{
    match scan_step(data) {
        ScanStep::End => Some(Seq::<TreeItemView>::empty()),
        ScanStep::Panic => None,
        ScanStep::Item(it, k) => if 0 < k <= data.len() {
            match scan_items(data.skip(k)) {
                Some(rest) => Some(seq![it] + rest),
                None => None,
            }
        } else {
            None
        },
    }
}

/// An entry found by a step lies inside `data`, so the scan goes on with what follows.
pub proof fn lemma_scan_items_step(data: Seq<u8>)
    ensures
        scan_step(data) matches ScanStep::Item(it, k) ==> 0 < k <= data.len(),
{
    let m = first_pos(data, GIT_KIND_DELIMITER);
    lemma_first_pos(data, GIT_KIND_DELIMITER);
    if m < data.len() {
        let rest = data.skip(m + 1);
        lemma_first_pos(rest, GIT_BLOB_DELIMITER);
    }
}

/// Whether scanning `data` ends without a panic: the test that
/// `Tree::decode` asks for before it is called.
pub fn scan_completes(data: &[u8]) -> (r: bool)
    ensures
        r == scan_items(data@) is Some,
{
    let mut pos: usize = 0;
    assert(data@.skip(0) =~= data@);
    while pos <= data.len()
        invariant
            pos <= data@.len(),
            scan_items(data@) is Some <==> scan_items(data@.skip(pos as int)) is Some,
        decreases data.len() - pos,
    {
        let cur = &data[pos..data.len()];
        let ghost c = cur@;
        assert(c =~= data@.skip(pos as int));
        proof {
            lemma_first_pos(c, GIT_KIND_DELIMITER);
            lemma_scan_items_step(c);
        }
        let mode_at = find_byte(cur, GIT_KIND_DELIMITER);
        if mode_at == cur.len() {
            return true;
        }
        let mode_ok = utf8_str(&cur[0..mode_at]).is_some();
        assert(c.subrange(0, mode_at as int) =~= c.take(mode_at as int));
        if !mode_ok {
            return true;
        }
        let rest = &cur[mode_at + 1..cur.len()];
        assert(rest@ =~= c.skip(mode_at + 1));
        proof {
            lemma_first_pos(rest@, GIT_BLOB_DELIMITER);
        }
        let name_at = find_byte(rest, GIT_BLOB_DELIMITER);
        if name_at == rest.len() {
            return true;
        }
        let name_ok = utf8_str(&rest[0..name_at]).is_some();
        assert(rest@.subrange(0, name_at as int) =~= rest@.take(name_at as int));
        if !name_ok {
            return true;
        }
        let tail_len = rest.len() - (name_at + 1);
        assert(rest@.skip(name_at + 1).len() == tail_len);
        if tail_len < 20 {
            return false;
        }
        let step = mode_at + 1 + name_at + 1 + 20;
        assert(c.skip(step as int) =~= data@.skip(pos + step));
        pos = pos + step;
    }
    true
}

/// Reads tree entries from the front of `data`.
pub struct TreeScanner<'a> {
    pub data: &'a [u8],
}

impl<'a> TreeScanner<'a> {
    /// The next entry: `None` at the end, with nothing
    /// consumed. Splitting off the 20 hash bytes panics where fewer are left;
    /// `requires` leaves that out.
    pub fn next_item(&mut self) -> (r: Option<TreeItem>)
        requires
            !(scan_step(old(self).data@) is Panic),
        ensures
            match scan_step(old(self).data@) {
                ScanStep::Item(v, k) => r matches Some(it) && it@ == v && final(self).data@ == old(
                    self,
                ).data@.skip(k),
                _ => r is None && final(self).data@ == old(self).data@,
            },
    {
        let data = self.data;
        proof {
            lemma_first_pos(data@, GIT_KIND_DELIMITER);
        }
        let mode_at = find_byte(data, GIT_KIND_DELIMITER);
        if mode_at == data.len() {
            return None;
        }
        let mode = match utf8_str(&data[0..mode_at]) {
            Some(s) => {
                proof {
                    vstd::utf8::encode_utf8_decode_utf8(s@);
                    assert(data@.subrange(0, mode_at as int) =~= data@.take(mode_at as int));
                }
                s.to_owned()
            },
            None => {
                assert(data@.subrange(0, mode_at as int) =~= data@.take(mode_at as int));
                return None;
            },
        };
        let rest = &data[mode_at + 1..data.len()];
        assert(rest@ =~= data@.skip(mode_at + 1));
        proof {
            lemma_first_pos(rest@, GIT_BLOB_DELIMITER);
        }
        let name_at = find_byte(rest, GIT_BLOB_DELIMITER);
        if name_at == rest.len() {
            return None;
        }
        let name = match utf8_str(&rest[0..name_at]) {
            Some(s) => {
                proof {
                    vstd::utf8::encode_utf8_decode_utf8(s@);
                    assert(rest@.subrange(0, name_at as int) =~= rest@.take(name_at as int));
                }
                s.to_owned()
            },
            None => {
                assert(rest@.subrange(0, name_at as int) =~= rest@.take(name_at as int));
                return None;
            },
        };
        let tail = &rest[name_at + 1..rest.len()];
        assert(tail@ =~= rest@.skip(name_at + 1));
        let (raw, after) = tail.split_at(20);
        let hash = hex_encode(raw);
        proof {
            lemma_hex_text_ascii(raw@);
            assert(raw@ =~= tail@.take(20));
        }
        let sha = match Sha::from_str(hash.as_str()) {
            Ok(s) => s,
            Err(_) => {
                return None;
            },
        };
        self.data = after;
        assert(after@ =~= data@.skip(mode_at + 1 + name_at + 1 + 20));
        Some(TreeItem { mode, name, sha })
    }
}

} // verus!
