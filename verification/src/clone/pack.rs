//! Packs: a header, entries, and a trailing checksum.
pub mod item;

use crate::buffers::{
    bytes_contents, bytes_is_empty, bytes_len, bytes_slice, split_off, split_to,
};
use crate::clone::pack::item::{item_step, read_from, PackItemDescriptor, PackItemDescriptorView};
use crate::error::GitError;
use crate::hashing::sha1_of;
use crate::hexcode::hex_text;
use crate::sha::{Sha, SHA1_CHUNK_SIZE};
use bytes::Bytes;
use vstd::prelude::*;

verus! {

/// The header of a pack: its version and its number of entries.
#[derive(Debug)]
pub struct Header {
    version: u32,
    count: u32,
}

/// A pack's header as a value.
pub struct PackHeaderView {
    pub version: u32,
    pub count: u32,
}

impl View for Header {
    type V = PackHeaderView;

    closed spec fn view(&self) -> PackHeaderView {
        PackHeaderView { version: self.version, count: self.count }
    }
}

/// A pack that was read through: its header and the name of its checksum.
#[derive(Debug)]
pub struct GitPack {
    header: Header,
    checksum: Sha,
}

/// A pack as a value.
pub struct GitPackView {
    pub header: PackHeaderView,
    pub checksum: Seq<char>,
}

impl View for GitPack {
    type V = GitPackView;

    closed spec fn view(&self) -> GitPackView {
        GitPackView { header: self.header@, checksum: self.checksum@ }
    }
}

/// The size of a pack's header.
pub const PACK_HEADER_SIZE: usize = 12;

/// `PACK`
pub open spec fn pack_signature() -> Seq<u8> {
    seq![80u8, 65, 67, 75]
}

/// The big-endian value of the four bytes of `s` from `at` on.
pub open spec fn be_u32(s: Seq<u8>, at: int) -> int {
    s[at] * 0x1000000 + s[at + 1] * 0x10000 + s[at + 2] * 0x100 + s[at + 3]
}

/// What reading a pack header from `s` does, and the bytes left: fewer than
/// 12 bytes are refused and nothing is consumed; otherwise 12 bytes are
/// consumed, and they must start with `PACK`, then hold the version and the
/// count, big-endian.
pub open spec fn header_step(s: Seq<u8>) -> (Result<PackHeaderView, GitError>, Seq<u8>) {
    if s.len() < 12 {
        (Err(GitError::PackTooShort), s)
    } else if s.take(4) != pack_signature() {
        (Err(GitError::PackSignature), s.skip(12))
    } else {
        (
            Ok(PackHeaderView { version: be_u32(s, 4) as u32, count: be_u32(s, 8) as u32 }),
            s.skip(12),
        )
    }
}

/// The result of reading entries from `s` until none is left: the first
/// error, or success.
pub open spec fn items_result(s: Seq<u8>) -> Result<(), GitError>
    decreases s.len(),
{
    if s.len() == 0 {
        Ok(())
    } else {
        let (res, rest) = item_step(s);
        match res {
            Err(e) => Err(e),
            Ok(_) => if rest.len() < s.len() {
                items_result(rest)
            } else {
                Ok(())
            },
        }
    }
}

/// The lines that reading entries from `s` until none is left reports: for
/// each entry that reads, its descriptor and the number of bytes left after
/// it; the entry that fails, and what follows it, report nothing.
pub open spec fn items_listing(s: Seq<u8>) -> Seq<(PackItemDescriptorView, int)>
    decreases s.len(),
{
    if s.len() == 0 {
        Seq::empty()
    } else {
        let (res, rest) = item_step(s);
        match res {
            Err(_) => Seq::empty(),
            Ok(it) => if rest.len() < s.len() {
                seq![(it.desc, rest.len() as int)] + items_listing(rest)
            } else {
                seq![(it.desc, rest.len() as int)]
            },
        }
    }
}

/// The lines that reading the pack `s` reports: none where the header cannot be
/// read or no checksum follows it, else those of its entries.
pub open spec fn pack_listing(s: Seq<u8>) -> Seq<(PackItemDescriptorView, int)> {
    let (h, rest) = header_step(s);
    match h {
        Err(_) => Seq::empty(),
        Ok(_) => if rest.len() < 20 {
            Seq::empty()
        } else {
            items_listing(rest.take(rest.len() - 20))
        },
    }
}

/// A report line as a value.
pub open spec fn line_view(e: (PackItemDescriptor, usize)) -> (PackItemDescriptorView, int) {
    (e.0@, e.1 as int)
}

/// What reading a whole pack gives: the header, then (from at least 20 bytes
/// left) the last 20 bytes as checksum, hashed into a name, then every entry
/// in between must read.
pub open spec fn pack_of(s: Seq<u8>) -> Result<GitPackView, GitError> {
    let (h, rest) = header_step(s);
    match h {
        Err(e) => Err(e),
        Ok(hv) => if rest.len() < 20 {
            Err(GitError::PackTooShort)
        } else {
            let body = rest.take(rest.len() - 20);
            let checksum = hex_text(sha1_of(rest.skip(rest.len() - 20)));
            match items_result(body) {
                Err(e) => Err(e),
                Ok(()) => Ok(GitPackView { header: hv, checksum }),
            }
        },
    }
}

/// A pack header is `PACK`, then the version as a big-endian `u32` in bytes 4
/// to 8, then the entry count as a big-endian `u32` in bytes 8 to 12; reading
/// it takes exactly those 12 bytes, and a pack that reads has that header.
pub proof fn law_pack_header_bytes(s: Seq<u8>)
    requires
        s.len() >= 12,
        s[0] == 80 && s[1] == 65 && s[2] == 67 && s[3] == 75,
    ensures
        ({
            let version = s[4] * 16777216 + s[5] * 65536 + s[6] * 256 + s[7];
            let count = s[8] * 16777216 + s[9] * 65536 + s[10] * 256 + s[11];
            &&& header_step(s).1 == s.skip(12)
            &&& header_step(s).0 matches Ok(h) && h.version == version && h.count == count
            &&& pack_of(s) matches Ok(p) ==> p.header.version == version && p.header.count == count
        }),
{
    assert(s.take(4) =~= pack_signature());
}

/// An entry that reads takes at least one byte, so the entries run out.
pub proof fn law_entry_consumes_bytes(s: Seq<u8>)
    requires
        item_step(s).0 is Ok,
    ensures
        item_step(s).1.len() < s.len(),
{
    let k = crate::clone::pack::item::desc_len(s);
    assert(k >= 1);
}

impl Header {
    /// Reads the pack header at the start of `bytes`.
    fn build(bytes: &mut Bytes) -> (r: Result<Header, GitError>)
        ensures
            ({
                let (res, rest) = header_step(bytes_contents(*old(bytes)));
                &&& bytes_contents(*final(bytes)) == rest
                &&& match res {
                    Ok(h) => r matches Ok(x) && x@ == h,
                    Err(e) => r matches Err(x) && x == e,
                }
            }),
    {
        if bytes_len(bytes) < PACK_HEADER_SIZE {
            return Err(GitError::PackTooShort);
        }
        let ghost s = bytes_contents(*bytes);
        let head = split_to(bytes, PACK_HEADER_SIZE);
        let b = bytes_slice(&head);
        if !(b[0] == 80 && b[1] == 65 && b[2] == 67 && b[3] == 75) {
            proof {
                if b@.take(4) == pack_signature() {
                    assert(b@.take(4)[0] == 80);
                    assert(b@.take(4)[1] == 65);
                    assert(b@.take(4)[2] == 67);
                    assert(b@.take(4)[3] == 75);
                }
            }
            return Err(GitError::PackSignature);
        }
        assert(b@.take(4) =~= pack_signature());
        assert(b@ == s.take(12));
        assert(s.take(4) =~= pack_signature());
        assert(b[4] == s[4] && b[5] == s[5] && b[6] == s[6] && b[7] == s[7]);
        assert(b[8] == s[8] && b[9] == s[9] && b[10] == s[10] && b[11] == s[11]);
        let version = (b[4] as u32) * 0x1000000 + (b[5] as u32) * 0x10000 + (b[6] as u32) * 0x100
            + (b[7] as u32);
        let count = (b[8] as u32) * 0x1000000 + (b[9] as u32) * 0x10000 + (b[10] as u32) * 0x100
            + (b[11] as u32);
        assert(version as int == be_u32(s, 4));
        assert(count as int == be_u32(s, 8));
        Ok(Header { version, count })
    }
}

impl GitPack {
    /// Reads a pack.
    pub fn try_from_bytes(value: Bytes) -> (r: Result<GitPack, GitError>)
        ensures
            match pack_of(bytes_contents(value)) {
                Ok(p) => r matches Ok(x) && x@ == p,
                Err(e) => r matches Err(x) && x == e,
            },
    {
        let (r, _) = build(value);
        r
    }

    /// Reads a pack, and reports each entry as it is read: its descriptor and
    /// the number of bytes left after it.
    pub fn read_listing(value: Bytes) -> (r: (Result<GitPack, GitError>, Vec<(PackItemDescriptor, usize)>))
        ensures
            match pack_of(bytes_contents(value)) {
                Ok(p) => r.0 matches Ok(x) && x@ == p,
                Err(e) => r.0 matches Err(x) && x == e,
            },
            r.1@.map_values(|e: (PackItemDescriptor, usize)| line_view(e)) == pack_listing(
                bytes_contents(value),
            ),
    {
        build(value)
    }
}

/// Reads a pack: its header, the checksum at its end, and every entry in
/// between, each of which must read; each entry read is reported with the
/// number of bytes left after it.
fn build(bytes: Bytes) -> (r: (Result<GitPack, GitError>, Vec<(PackItemDescriptor, usize)>))
    ensures
        match pack_of(bytes_contents(bytes)) {
            Ok(p) => r.0 matches Ok(x) && x@ == p,
            Err(e) => r.0 matches Err(x) && x == e,
        },
        r.1@.map_values(|e: (PackItemDescriptor, usize)| line_view(e)) == pack_listing(
            bytes_contents(bytes),
        ),
{
    let ghost s = bytes_contents(bytes);
    let mut listing: Vec<(PackItemDescriptor, usize)> = Vec::new();
    assert(listing@.map_values(|e: (PackItemDescriptor, usize)| line_view(e)) =~= Seq::empty());
    let mut rest = bytes;
    let header = match Header::build(&mut rest) {
        Ok(h) => h,
        Err(e) => return (Err(e), listing),
    };
    if bytes_len(&rest) < SHA1_CHUNK_SIZE {
        return (Err(GitError::PackTooShort), listing);
    }
    let at = bytes_len(&rest) - SHA1_CHUNK_SIZE;
    let checksum = split_off(&mut rest, at);
    let checksum = match Sha::try_from_chunk(bytes_slice(&checksum)) {
        Ok(c) => c,
        Err(e) => return (Err(e), listing),
    };
    let ghost body = bytes_contents(rest);
    assert(pack_of(s) == match items_result(body) {
        Err(e) => Err(e),
        Ok(()) => Ok(GitPackView { header: header@, checksum: checksum@ }),
    });
    assert(pack_listing(s) == items_listing(body));
    while !bytes_is_empty(&rest)
        invariant
            items_result(body) == items_result(bytes_contents(rest)),
            items_listing(body) == listing@.map_values(|e: (PackItemDescriptor, usize)| line_view(e))
                + items_listing(bytes_contents(rest)),
            s == bytes_contents(bytes),
            pack_of(s) == match items_result(body) {
                Err(e) => Err(e),
                Ok(()) => Ok(GitPackView { header: header@, checksum: checksum@ }),
            },
            pack_listing(s) == items_listing(body),
        decreases bytes_contents(rest).len(),
    {
        let ghost before = bytes_contents(rest);
        let ghost old_lines = listing@.map_values(|e: (PackItemDescriptor, usize)| line_view(e));
        let item = read_from(&mut rest);
        match item {
            Ok(it) => {
                proof {
                    law_entry_consumes_bytes(before);
                }
                let left = bytes_len(&rest);
                let ghost line = (it.desc@, left as int);
                listing.push((it.desc, left));
                proof {
                    assert(listing@.map_values(|e: (PackItemDescriptor, usize)| line_view(e))
                        =~= old_lines.push(line));
                    assert(items_listing(before) == seq![line] + items_listing(bytes_contents(rest)));
                    assert(old_lines + (seq![line] + items_listing(bytes_contents(rest)))
                        =~= old_lines.push(line) + items_listing(bytes_contents(rest)));
                }
            },
            Err(e) => {
                proof {
                    assert(items_result(before) == Err::<(), GitError>(e));
                    assert(items_result(body) == Err::<(), GitError>(e));
                    assert(pack_of(s) == Err::<GitPackView, GitError>(e));
                    assert(items_listing(before) =~= Seq::empty());
                    assert(old_lines + Seq::<(PackItemDescriptorView, int)>::empty() =~= old_lines);
                }
                return (Err(e), listing);
            },
        }
    }
    proof {
        let l = listing@.map_values(|e: (PackItemDescriptor, usize)| line_view(e));
        assert(l + Seq::<(PackItemDescriptorView, int)>::empty() =~= l);
    }
    (Ok(GitPack { header, checksum }), listing)
}

} // verus!
