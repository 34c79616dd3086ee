//! Object names: 40-character hash texts, and where objects live on disk.
use crate::buffers::{bytes_contents, bytes_len, bytes_slice, split_to};
use crate::error::GitError;
use bytes::Bytes;
use crate::hashing::{sha1_digest, sha1_of};
use crate::hexcode::{
    hex_char, hex_encode, hex_text, is_lower_hex_char, is_lower_hex_text, lemma_hex_text_lower,
    lemma_lower_hex_bytes,
};
use crate::text::text_bytes;
use vstd::prelude::*;
use vstd::string::StringSliceAdditionalSpecFns;
use vstd::string::StringExecFns;
use vstd::utf8::is_ascii_chars;

verus! {

broadcast use vstd::utf8::is_ascii_chars_encode_utf8;

/// The byte length of a hash text.
pub const SHA_TEXT_LEN: usize = 40;

/// The byte length of a raw SHA-1 hash.
pub const SHA1_CHUNK_SIZE: usize = 20;

/// The byte `/`.
pub const SLASH: u8 = 47;

/// The name of an object: a hash text of 40 bytes.
#[derive(Debug, PartialEq)]
pub struct Sha(String);

impl Clone for Sha {
    /// A copy of this name.
    fn clone(&self) -> (s: Self)
        ensures
            s@ == self@,
    {
        proof {
            use_type_invariant(self);
        }
        Sha(self.0.clone())
    }
}

impl View for Sha {
    type V = Seq<char>;

    closed spec fn view(&self) -> Seq<char> {
        self.0@
    }
}

/// Whether `t` has the 40 bytes of a hash text.
pub open spec fn is_sha_text(t: Seq<char>) -> bool {
    text_bytes(t).len() == SHA_TEXT_LEN
}

impl Sha {
    /// Every name is a 40-byte hash text.
    #[verifier::type_invariant]
    closed spec fn holds_sha_text(self) -> bool {
        is_sha_text(self.0@)
    }
}

/// `.git/objects`, the directory that holds the objects.
pub open spec fn objects_dir() -> Seq<u8> {
    seq![46u8, 103, 105, 116, 47, 111, 98, 106, 101, 99, 116, 115]
}

/// `Path::join` on Unix, over bytes: a component that starts with `/` replaces
/// the path; otherwise a `/` goes between unless the path ends with one.
pub open spec fn path_join(base: Seq<u8>, comp: Seq<u8>) -> Seq<u8> {
    if comp.len() > 0 && comp[0] == SLASH {
        comp
    } else if base.len() > 0 && base.last() != SLASH {
        base + seq![SLASH] + comp
    } else {
        base + comp
    }
}

/// Where the object with hash text bytes `sha` lives: `.git/objects`, joined
/// with its first two bytes, joined with the rest.
pub open spec fn object_path(sha: Seq<u8>) -> Seq<u8> {
    path_join(path_join(objects_dir(), sha.take(2)), sha.skip(2))
}

/// The UTF-8 bytes of a concatenation are the concatenation of the bytes.
pub proof fn lemma_text_bytes_concat(a: Seq<char>, b: Seq<char>)
    ensures
        text_bytes(a + b) == text_bytes(a) + text_bytes(b),
    decreases a.len(),
{
    if a.len() == 0 {
        assert(a + b =~= b);
    } else {
        lemma_text_bytes_concat(a.drop_first(), b);
        assert((a + b).drop_first() =~= a.drop_first() + b);
        assert((a + b)[0] == a[0]);
    }
}

/// The hexadecimal text of any bytes is ASCII, one byte per character.
pub proof fn lemma_hex_text_ascii(b: Seq<u8>)
    ensures
        is_ascii_chars(hex_text(b)),
        text_bytes(hex_text(b)).len() == 2 * b.len(),
{
    assert forall|i: int| 0 <= i < hex_text(b).len() implies '\0' <= #[trigger] hex_text(b)[i]
        <= '\u{7f}' by {
        let n: int = if i % 2 == 0 {
            b[i / 2] as int / 16
        } else {
            b[i / 2] as int % 16
        };
        assert(0 <= n < 16);
        assert(hex_text(b)[i] == hex_char(n));
    }
    vstd::utf8::is_ascii_chars_encode_utf8(hex_text(b));
}

impl Sha {
    /// Takes `inner` as a hash text where it is 40 bytes long.
    pub fn new(inner: String) -> (r: Result<Sha, GitError>)
        ensures
            match r {
                Ok(s) => is_sha_text(inner@) && s@ == inner@,
                Err(e) => !is_sha_text(inner@) && e == GitError::UnexpectedShaLength,
            },
    {
        if inner.as_str().as_bytes().len() == SHA_TEXT_LEN {
            Ok(Sha(inner))
        } else {
            Err(GitError::UnexpectedShaLength)
        }
    }

    /// Reads `s` as a hash text: it must be 40 bytes long.
    pub fn from_str(s: &str) -> (r: Result<Sha, GitError>)
        ensures
            match r {
                Ok(sha) => is_sha_text(s@) && sha@ == s@,
                Err(e) => !is_sha_text(s@) && e == GitError::UnexpectedShaLength,
            },
    {
        Sha::new(s.to_owned())
    }

    /// A copy of this name.
    pub fn duplicate(&self) -> (s: Sha)
        ensures
            s@ == self@,
    {
        proof {
            use_type_invariant(self);
        }
        Sha(self.0.clone())
    }

    /// The hash text's bytes, always 40 of them.
    pub fn as_bytes(&self) -> (b: &[u8])
        ensures
            b@ == text_bytes(self@),
            b@.len() == SHA_TEXT_LEN,
    {
        proof {
            use_type_invariant(self);
        }
        self.0.as_str().as_bytes()
    }

    /// The hash text's characters.
    pub fn as_str(&self) -> (s: &str)
        ensures
            s@ == self@,
            is_sha_text(s@),
    {
        proof {
            use_type_invariant(self);
        }
        self.0.as_str()
    }

    /// The name of raw hash bytes: `chunk` must be 20 bytes
    /// long; the name is the lowercase hexadecimal text of the SHA-1 digest of
    /// `chunk`.
    pub fn try_from_chunk(chunk: &[u8]) -> (r: Result<Sha, GitError>)
        ensures
            match r {
                Ok(s) => chunk@.len() == SHA1_CHUNK_SIZE && s@ == hex_text(sha1_of(chunk@))
                    && s@.len() == SHA_TEXT_LEN && is_lower_hex_text(s@),
                Err(e) => chunk@.len() != SHA1_CHUNK_SIZE && e == GitError::ShaChunkLength,
            },
    {
        if chunk.len() != SHA1_CHUNK_SIZE {
            return Err(GitError::ShaChunkLength);
        }
        let digest = sha1_digest(chunk);
        let hash = hex_encode(digest.as_slice());
        proof {
            lemma_hex_text_ascii(digest@);
            lemma_hex_text_lower(digest@);
        }
        Sha::new(hash)
    }

    /// The name of the 20 raw bytes at the start of `source`, which are
    /// consumed; fewer than 20 bytes are refused and nothing is consumed.
    pub fn take_from(source: &mut Bytes) -> (r: Result<Sha, GitError>)
        ensures
            match r {
                Ok(s) => bytes_contents(*old(source)).len() >= SHA1_CHUNK_SIZE && s@ == hex_text(
                    sha1_of(bytes_contents(*old(source)).take(20)),
                ) && bytes_contents(*final(source)) == bytes_contents(*old(source)).skip(20),
                Err(e) => bytes_contents(*old(source)).len() < SHA1_CHUNK_SIZE && e
                    == GitError::NotEnoughData && bytes_contents(*final(source)) == bytes_contents(
                    *old(source),
                ),
            },
    {
        if bytes_len(source) < SHA1_CHUNK_SIZE {
            return Err(GitError::NotEnoughData);
        }
        let source = split_to(source, SHA1_CHUNK_SIZE);
        Sha::try_from_chunk(bytes_slice(&source))
    }

    /// Where the object lives: `.git/objects/<first two bytes>/<the rest>`, with
    /// `Path::join`'s rules. Splitting the text panics unless byte 2 starts a
    /// character; `requires` leaves that out.
    pub fn path(&self) -> (p: String)
        requires
            vstd::utf8::is_char_boundary(text_bytes(self@), 2),
        ensures
            text_bytes(p@) == object_path(text_bytes(self@)),
    {
        let (prefix, file_name) = self.0.as_str().split_at(2);
        let dir = ".git/objects";
        proof {
            reveal_strlit(".git/objects");
            assert(dir@ =~= seq!['.', 'g', 'i', 't', '/', 'o', 'b', 'j', 'e', 'c', 't', 's']);
            assert(is_ascii_chars(dir@));
            assert(text_bytes(dir@) =~= objects_dir());
        }
        let mut p = dir.to_owned();
        join_onto(&mut p, prefix);
        join_onto(&mut p, file_name);
        p
    }
}

/// Appends the path component `comp` to the path `p` as `Path::join` does on Unix.
fn join_onto(p: &mut String, comp: &str)
    ensures
        text_bytes(final(p)@) == path_join(text_bytes(old(p)@), comp.spec_bytes()),
{
    let cb = comp.as_bytes();
    if cb.len() > 0 && cb[0] == SLASH {
        *p = comp.to_owned();
        return;
    }
    let pb = p.as_str().as_bytes();
    let needs_sep = pb.len() > 0 && pb[pb.len() - 1] != SLASH;
    let ghost before = p@;
    if needs_sep {
        let sep = "/";
        proof {
            reveal_strlit("/");
            assert(sep@ =~= seq!['/']);
            assert(is_ascii_chars(sep@));
            assert(text_bytes(sep@) =~= seq![SLASH]);
        }
        p.append(sep);
        let ghost mid = p@;
        p.append(comp);
        proof {
            lemma_text_bytes_concat(before, sep@);
            lemma_text_bytes_concat(mid, comp@);
        }
    } else {
        p.append(comp);
        proof {
            lemma_text_bytes_concat(before, comp@);
        }
    }
}

/// A hash text of lowercase hexadecimal digits splits at byte 2, and its
/// object lives at `.git/objects/<first two digits>/<the other 38>`.
pub proof fn law_object_path_hex(t: Seq<char>)
    requires
        t.len() == 40,
        is_lower_hex_text(t),
    ensures
        vstd::utf8::is_char_boundary(text_bytes(t), 2),
        object_path(text_bytes(t)) == objects_dir() + seq![SLASH] + text_bytes(t).take(2) + seq![
            SLASH,
        ] + text_bytes(t).skip(2),
{
    lemma_lower_hex_bytes(t);
    let b = text_bytes(t);
    vstd::utf8::encode_utf8_valid_utf8(t);
    vstd::utf8::is_char_boundary_iff_not_is_continuation_byte(b, 2);
    assert(is_lower_hex_char(t[2]));
    assert(is_lower_hex_char(t[0]));
    assert(is_lower_hex_char(t[2]));
    assert(b[0] == t[0] as u8);
    assert(b[2] == t[2] as u8);
    let first = path_join(objects_dir(), b.take(2));
    assert(first =~= objects_dir() + seq![SLASH] + b.take(2));
    assert(first.last() == b[1]);
    assert(is_lower_hex_char(t[1]));
    assert(b[1] == t[1] as u8);
}

} // verus!
