//! The entries of a pack: a descriptor of kind and size, then a zlib stream.
use crate::buffers::{advance, bytes_contents, bytes_slice};
use crate::codec::unzip_count;
use crate::error::GitError;
use crate::hashing::sha1_of;
use crate::hexcode::hex_text;
use crate::object::kind::{Kind, KindView};
use crate::sha::Sha;
use crate::text::{swap_bytes_u32, u32_from_le};
use crate::zlib::zlib_inflated;
use bytes::Bytes;
use vstd::endian::{endianness, Endian};
use vstd::prelude::*;

verus! {

/// The type of an entry's size.
pub type GitFileSize = u32;

/// The kind of a pack entry: an object of a kind, a delta against a named
/// object, or a delta against an earlier entry.
#[derive(Debug)]
pub enum PackKind {
    Object(Kind),
    Ref(Sha),
    Offset(i32),
}

/// A pack entry's kind as a value.
pub enum PackKindView {
    Object(KindView),
    Ref(Seq<char>),
    Offset(i32),
}

impl View for PackKind {
    type V = PackKindView;

    open spec fn view(&self) -> PackKindView {
        match self {
            PackKind::Object(k) => PackKindView::Object(k@),
            PackKind::Ref(s) => PackKindView::Ref(s@),
            PackKind::Offset(o) => PackKindView::Offset(*o),
        }
    }
}

/// The descriptor of a pack entry: kind and size.
#[derive(Debug)]
pub struct PackItemDescriptor {
    pub kind: PackKind,
    pub size: GitFileSize,
}

/// A descriptor as a value.
pub struct PackItemDescriptorView {
    pub kind: PackKindView,
    pub size: GitFileSize,
}

impl View for PackItemDescriptor {
    type V = PackItemDescriptorView;

    open spec fn view(&self) -> PackItemDescriptorView {
        PackItemDescriptorView { kind: self.kind@, size: self.size }
    }
}

/// A pack entry: its descriptor and its decompressed data.
#[derive(Debug)]
pub struct PackItem {
    pub desc: PackItemDescriptor,
    pub data: Vec<u8>,
}

/// A pack entry as a value.
pub struct PackItemView {
    pub desc: PackItemDescriptorView,
    pub data: Seq<u8>,
}

impl View for PackItem {
    type V = PackItemView;

    open spec fn view(&self) -> PackItemView {
        PackItemView { desc: self.desc@, data: self.data@ }
    }
}

/// The high bit: set on every descriptor byte but the last.
pub const PARTIAL_MASK: u8 = 0x80;

/// The bits of the first descriptor byte that hold the kind.
pub const KIND_MASK: u8 = 0x70;

/// How many bytes the descriptor at the start of `s` takes: up to the first
/// byte without the high bit, and never more than four.
pub open spec fn desc_len(s: Seq<u8>) -> int {
    if s.len() >= 1 && s[0] < 128 {
        1
    } else if s.len() >= 2 && s[1] < 128 {
        2
    } else if s.len() >= 3 && s[2] < 128 {
        3
    } else {
        4
    }
}

/// Where the data bits of descriptor byte `j` go: the low four bits of the
/// first byte come first, then seven bits from each further byte.
pub open spec fn desc_shift(j: int) -> int {
    if j == 1 {
        16
    } else if j == 2 {
        2048
    } else {
        262144
    }
}

/// The size bits that the first `k` descriptor bytes hold.
pub open spec fn desc_value(s: Seq<u8>, k: int) -> int
    decreases k,
{
    if k <= 0 {
        0
    } else if k == 1 {
        s[0] as int % 16
    } else {
        desc_value(s, k - 1) + (s[k - 1] as int % 128) * desc_shift(k - 1)
    }
}

/// The bit count after `k` descriptor bytes.
pub open spec fn desc_bits(k: int) -> int {
    if k == 0 {
        0
    } else {
        4 + 7 * (k - 1)
    }
}

/// The kind number of a descriptor: bits 4 to 6 of its first byte.
pub open spec fn desc_raw_kind(s: Seq<u8>) -> u8 {
    ((s[0] / 16) % 8) as u8
}

/// `u32::from_le` on this machine: the value itself on a little-endian target,
/// with its bytes swapped on a big-endian one.
pub open spec fn from_le(v: u32) -> int {
    match endianness() {
        Endian::Little => v as int,
        Endian::Big => swap_bytes_u32(v),
    }
}

/// What reading an entry's type number does: 1, 2 and 3 are commit, tree and
/// blob objects; 7 is a delta that names its base object by the 20 bytes that follow
/// (read as the raw bytes of a name, hashed); other kinds are refused. The
/// result, and the bytes left.
pub open spec fn kind_step(raw: u8, s: Seq<u8>) -> (Result<PackKindView, GitError>, Seq<u8>) {
    if raw == 1 {
        (Ok(PackKindView::Object(KindView::Commit)), s)
    } else if raw == 2 {
        (Ok(PackKindView::Object(KindView::Tree)), s)
    } else if raw == 3 {
        (Ok(PackKindView::Object(KindView::Blob)), s)
    } else if raw == 7 {
        if s.len() < 20 {
            (Err(GitError::NotEnoughData), s)
        } else {
            (Ok(PackKindView::Ref(hex_text(sha1_of(s.take(20))))), s.skip(20))
        }
    } else {
        (Err(GitError::PackEntryUnsupported), s)
    }
}

/// What reading a descriptor from `s` does, and the bytes left: where `s`
/// ends inside the descriptor nothing is consumed; otherwise the descriptor
/// bytes are consumed, then the kind is read.
pub open spec fn desc_step(s: Seq<u8>) -> (Result<PackItemDescriptorView, GitError>, Seq<u8>) {
    let k = desc_len(s);
    if s.len() < k {
        (Err(GitError::PackEntryTruncated), s)
    } else {
        let (kind, rest) = kind_step(desc_raw_kind(s), s.skip(k));
        match kind {
            Ok(kv) => (
                Ok(PackItemDescriptorView { kind: kv, size: from_le(desc_value(s, k) as u32) as u32 }),
                rest,
            ),
            Err(e) => (Err(e), rest),
        }
    }
}

/// What reading an entry from `s` does, and the bytes left: the descriptor,
/// then the zlib stream after it, which is consumed.
pub open spec fn item_step(s: Seq<u8>) -> (Result<PackItemView, GitError>, Seq<u8>) {
    let (desc, rest) = desc_step(s);
    match desc {
        Err(e) => (Err(e), rest),
        Ok(d) => match zlib_inflated(rest) {
            None => (Err(GitError::Decompress), rest),
            Some((data, n)) => if n <= rest.len() {
                (Ok(PackItemView { desc: d, data }), rest.skip(n as int))
            } else {
                (Err(GitError::Decompress), rest)
            },
        },
    }
}

proof fn lemma_desc_byte(p: u8)
    ensures
        ((p & KIND_MASK) >> 4u8) == (p / 16) % 8,
        ((p & !KIND_MASK) & !PARTIAL_MASK) == p % 16,
        (p & !PARTIAL_MASK) == p % 128,
        ((p & PARTIAL_MASK) == 0) == (p < 128),
{
    assert(((p & 0x70u8) >> 4u8) == (p / 16) % 8) by (bit_vector);
    assert(((p & !0x70u8) & !0x80u8) == p % 16) by (bit_vector);
    assert((p & !0x80u8) == p % 128) by (bit_vector);
    assert(((p & 0x80u8) == 0) == (p < 128)) by (bit_vector);
}

proof fn lemma_desc_merge(value: u32, d: u32, bits: u32)
    requires
        bits == 0 || bits == 4 || bits == 11 || bits == 18,
        bits == 0 ==> value == 0 && d < 16,
        bits > 0 ==> d < 128,
        bits == 4 ==> value < 16,
        bits == 11 ==> value < 2048,
        bits == 18 ==> value < 262144,
    ensures
        (value | (d << bits)) == value + d * (if bits == 0 {
            1int
        } else if bits == 4 {
            16int
        } else if bits == 11 {
            2048int
        } else {
            262144int
        }),
{
    if bits == 0 {
        assert(value == 0 && d < 16 ==> (value | (d << 0u32)) == d) by (bit_vector);
    } else if bits == 4 {
        assert(value < 16 && d < 128 ==> (value | (d << 4u32)) == value + d * 16) by (bit_vector);
    } else if bits == 11 {
        assert(value < 2048 && d < 128 ==> (value | (d << 11u32)) == value + d * 2048)
            by (bit_vector);
    } else {
        assert(value < 262144 && d < 128 ==> (value | (d << 18u32)) == value + d * 262144)
            by (bit_vector);
    }
}

proof fn lemma_desc_value_bound(s: Seq<u8>, k: int)
    requires
        0 <= k <= 4,
        k <= s.len(),
    ensures
        0 <= desc_value(s, k),
        k <= 1 ==> desc_value(s, k) < 16,
        k == 2 ==> desc_value(s, k) < 2048,
        k == 3 ==> desc_value(s, k) < 262144,
        k == 4 ==> desc_value(s, k) < 33554432,
    decreases k,
{
    if k > 1 {
        lemma_desc_value_bound(s, k - 1);
    }
}

/// Reading a descriptor never takes more than it may: it consumes a prefix of
/// the input, at most the four descriptor bytes, plus the 20 bytes of a base
/// name for a delta of type 7; on success exactly the descriptor bytes (and
/// that name). Types other than 1, 2, 3 and 7 are refused once the descriptor
/// is complete, and on a little-endian target the size read is below 2^25.
pub proof fn law_desc_step(s: Seq<u8>)
    ensures
        ({
            let (res, rest) = desc_step(s);
            let used = s.len() - rest.len();
            let name_len: int = if s.len() > 0 && desc_raw_kind(s) == 7 { 20 } else { 0 };
            &&& 0 <= used <= 4 + name_len
            &&& rest == s.skip(used)
            &&& res is Ok ==> used == desc_len(s) + name_len
            &&& endianness() == Endian::Little ==> (res matches Ok(d) ==> d.size < 33554432)
            &&& s.len() >= desc_len(s) && !(desc_raw_kind(s) == 1 || desc_raw_kind(s) == 2
                || desc_raw_kind(s) == 3 || desc_raw_kind(s) == 7) ==> res == Err::<
                PackItemDescriptorView,
                GitError,
            >(GitError::PackEntryUnsupported)
        }),
{
    let k = desc_len(s);
    if s.len() < k {
        assert(s.skip(0) =~= s);
    } else {
        lemma_desc_value_bound(s, k);
        let t = s.skip(k);
        let raw = desc_raw_kind(s);
        if raw == 7 && t.len() >= 20 {
            assert(t.skip(20) =~= s.skip(k + 20));
        } else {
            assert(t =~= s.skip(k));
        }
    }
}

/// A descriptor is the bytes up to and including the first one below 0x80,
/// at most four: where bytes `0..k-1` have the high bit set and byte `k - 1`
/// (for `k < 4`) does not, reading takes exactly `k` bytes (and the 20 bytes of
/// a base name after them for type 7). Its type is bits 4 to 6 of the first
/// byte (1 commit, 2 tree, 3 blob, 7 a delta against the object named by the
/// SHA-1 of those 20 bytes); its size holds the low 4 bits of the first byte,
/// then 7 bits of each further byte, least significant first, and is passed
/// through `u32::from_le`, so on a little-endian target it is that number.
pub proof fn law_desc_bytes(s: Seq<u8>, k: int)
    requires
        1 <= k <= 4,
        k <= s.len(),
        forall|j: int| 0 <= j < k - 1 ==> s[j] >= 128,
        k < 4 ==> s[k - 1] < 128,
        1 <= (s[0] / 16) % 8 <= 3 || ((s[0] / 16) % 8 == 7 && s.len() >= k + 20),
    ensures
        ({
            let t = (s[0] / 16) % 8;
            let size = s[0] % 16 + (if k > 1 { (s[1] % 128) * 16 } else { 0int }) + (if k > 2 {
                (s[2] % 128) * 2048
            } else {
                0int
            }) + (if k > 3 { (s[3] % 128) * 262144 } else { 0int });
            let kind = if t == 1 {
                PackKindView::Object(KindView::Commit)
            } else if t == 2 {
                PackKindView::Object(KindView::Tree)
            } else if t == 3 {
                PackKindView::Object(KindView::Blob)
            } else {
                PackKindView::Ref(hex_text(sha1_of(s.subrange(k, k + 20))))
            };
            &&& desc_step(s).1 == s.skip(if t == 7 { k + 20 } else { k })
            &&& desc_step(s).0 matches Ok(d) && d.kind == kind && d.size as int == from_le(size as u32)
            &&& 0 <= size < 33554432
            &&& endianness() == Endian::Little ==> (desc_step(s).0 matches Ok(d) && d.size == size)
        }),
{
    assert(desc_len(s) == k);
    lemma_desc_value_bound(s, k);
    let size = s[0] % 16 + (if k > 1 { (s[1] % 128) * 16 } else { 0int }) + (if k > 2 {
        (s[2] % 128) * 2048
    } else {
        0int
    }) + (if k > 3 { (s[3] % 128) * 262144 } else { 0int });
    assert(desc_value(s, 1) == s[0] % 16);
    if k >= 2 {
        assert(desc_value(s, 2) == desc_value(s, 1) + (s[1] % 128) * 16);
    }
    if k >= 3 {
        assert(desc_value(s, 3) == desc_value(s, 2) + (s[2] % 128) * 2048);
    }
    if k >= 4 {
        assert(desc_value(s, 4) == desc_value(s, 3) + (s[3] % 128) * 262144);
    }
    assert(desc_value(s, k) == size);
    let t = s.skip(k);
    if (s[0] / 16) % 8 == 7 {
        assert(t.skip(20) =~= s.skip(k + 20));
        assert(t.take(20) =~= s.subrange(k, k + 20));
    }
}

/// Reads the descriptor of the entry at the start of `source`,
/// and the kind after it.
fn read_desc(source: &mut Bytes) -> (r: Result<PackItemDescriptor, GitError>)
    ensures
        ({
            let (res, rest) = desc_step(bytes_contents(*old(source)));
            &&& bytes_contents(*final(source)) == rest
            &&& match res {
                Ok(d) => r matches Ok(x) && x@ == d,
                Err(e) => r matches Err(x) && x == e,
            }
        }),
{
    let ghost s = bytes_contents(*source);
    let stream = bytes_slice(source);
    let mut value: GitFileSize = 0;
    let mut raw_kind: u8 = 0;
    let mut bit_read_count: usize = 0;
    let mut collected = false;
    let mut bytes_read: usize = 0;
    while !collected && bit_read_count < 24
        invariant
            stream@ == s,
            bytes_contents(*source) == s,
            bytes_read <= 4,
            bytes_read <= s.len(),
            bit_read_count == desc_bits(bytes_read as int),
            value == desc_value(s, bytes_read as int),
            collected == (bytes_read > 0 && s[bytes_read - 1] < 128),
            forall|j: int| 0 <= j < bytes_read - 1 ==> s[j] >= 128,
            bytes_read > 0 ==> raw_kind == desc_raw_kind(s),
        decreases 4 - bytes_read,
    {
        if bytes_read >= stream.len() {
            proof {
                assert(bytes_read < 4);
                assert(forall|j: int| 0 <= j < bytes_read ==> s[j] >= 128);
                assert(s.len() < desc_len(s));
                assert(desc_step(s).0 == Err::<PackItemDescriptorView, GitError>(GitError::PackEntryTruncated));
                assert(desc_step(s).1 == s);
                assert(bytes_contents(*source) == s);
            }
            return Err(GitError::PackEntryTruncated);
        }
        let mut part = stream[bytes_read];
        proof {
            lemma_desc_byte(part);
            lemma_desc_value_bound(s, bytes_read as int);
        }
        collected = (part & PARTIAL_MASK) == 0;
        let bit_offset: usize;
        if bit_read_count == 0 {
            raw_kind = (part & KIND_MASK) >> 4;
            part &= !KIND_MASK;
            bit_offset = 4;
        } else {
            bit_offset = 7;
        }
        part &= !PARTIAL_MASK;
        let mut data = part as GitFileSize;
        proof {
            lemma_desc_merge(value, data, bit_read_count as u32);
        }
        data <<= bit_read_count as u32;
        value |= data;
        bit_read_count += bit_offset;
        bytes_read += 1;
    }
    proof {
        assert(bytes_read as int == desc_len(s));
    }
    advance(source, bytes_read);
    let kind = resolve_kind(raw_kind, source)?;
    let size = u32_from_le(value);
    Ok(PackItemDescriptor { kind, size })
}

/// Reads an entry's kind from its number; a delta against a named object
/// takes the 20 bytes that follow.
fn resolve_kind(raw: u8, source: &mut Bytes) -> (r: Result<PackKind, GitError>)
    ensures
        ({
            let (res, rest) = kind_step(raw, bytes_contents(*old(source)));
            &&& bytes_contents(*final(source)) == rest
            &&& match res {
                Ok(k) => r matches Ok(x) && x@ == k,
                Err(e) => r matches Err(x) && x == e,
            }
        }),
{
    let kind = match raw {
        1 => PackKind::Object(Kind::Commit),
        2 => PackKind::Object(Kind::Tree),
        3 => PackKind::Object(Kind::Blob),
        7 => {
            let sha = Sha::take_from(source)?;
            PackKind::Ref(sha)
        },
        _ => return Err(GitError::PackEntryUnsupported),
    };
    Ok(kind)
}

/// Reads the entry at the start of `bytes`: its descriptor, then the zlib
/// stream of its data, which is consumed.
pub fn read_from(bytes: &mut Bytes) -> (r: Result<PackItem, GitError>)
    ensures
        ({
            let (res, rest) = item_step(bytes_contents(*old(bytes)));
            &&& bytes_contents(*final(bytes)) == rest
            &&& match res {
                Ok(it) => r matches Ok(x) && x@ == it,
                Err(e) => r matches Err(x) && x == e,
            }
        }),
{
    let desc = read_desc(bytes)?;
    let (data, read) = unzip_count(bytes_slice(bytes))?;
    advance(bytes, read);
    Ok(PackItem { desc, data })
}

} // verus!
