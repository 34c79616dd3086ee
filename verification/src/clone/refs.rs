//! The refs that a remote advertises: one per line, `<4 hex digits><hash> <name>`.
use crate::error::GitError;
use crate::numtext::{parse_unsigned, parse_unsigned_spec};
use crate::object::GIT_KIND_DELIMITER;
use crate::seqs::{find_byte, first_pos, lemma_first_pos};
use crate::sha::Sha;
use vstd::prelude::*;
use vstd::string::StringSliceAdditionalSpecFns;
use vstd::utf8::{decode_utf8, is_char_boundary, is_continuation_byte};

verus! {

/// A ref: the hash it points at, its name, and the length prefix of its line.
#[derive(Debug)]
pub struct GitRef {
    pub sha: Sha,
    pub name: String,
    pub size: usize,
}

/// A ref as a value.
pub struct GitRefView {
    pub sha: Seq<char>,
    pub name: Seq<char>,
    pub size: usize,
}

impl View for GitRef {
    type V = GitRefView;

    open spec fn view(&self) -> GitRefView {
        GitRefView { sha: self.sha@, name: self.name@, size: self.size }
    }
}

/// Whether reading the ref line with bytes `b` ends without a panic: where
/// there is a space, the part before it must be at least 4 bytes long and
/// byte 4 of it must start a character.
pub open spec fn ref_line_splittable(b: Seq<u8>) -> bool {
    let p = first_pos(b, GIT_KIND_DELIMITER);
    p < b.len() ==> p >= 4 && (p == 4 || !is_continuation_byte(b[4]))
}

/// The ref that the line with bytes `b` holds: before the first space, 4
/// hexadecimal digits (an optional `+` and digits, read as a number) and a
/// 40-byte hash text; after it, the name. The hash text is checked before the
/// number.
pub open spec fn ref_of(b: Seq<u8>) -> Result<GitRefView, GitError> {
    let p = first_pos(b, GIT_KIND_DELIMITER);
    if p == b.len() {
        Err(GitError::RefFormat)
    } else {
        let chunk = b.take(p);
        let sha = chunk.skip(4);
        if sha.len() != 40 {
            Err(GitError::UnexpectedShaLength)
        } else {
            match parse_unsigned_spec(chunk.take(4), 16) {
                None => Err(GitError::RefSize),
                Some(n) => Ok(
                    GitRefView { sha: decode_utf8(sha), name: decode_utf8(b.skip(p + 1)), size: n },
                ),
            }
        }
    }
}

impl GitRef {
    /// Reads a ref line. Splitting off the 4-byte prefix panics
    /// unless it ends at a character boundary; `requires` leaves that out.
    pub fn from_str(s: &str) -> (r: Result<GitRef, GitError>)
        requires
            ref_line_splittable(s.spec_bytes()),
        ensures
            match ref_of(s.spec_bytes()) {
                Ok(v) => r matches Ok(x) && x@ == v,
                Err(e) => r matches Err(x) && x == e,
            },
    {
        let b = s.as_bytes();
        let ghost bs = b@;
        proof {
            vstd::utf8::encode_utf8_valid_utf8(s@);
            lemma_first_pos(bs, GIT_KIND_DELIMITER);
        }
        let p = find_byte(b, GIT_KIND_DELIMITER);
        if p == b.len() {
            return Err(GitError::RefFormat);
        }
        proof {
            vstd::utf8::is_char_boundary_iff_not_is_continuation_byte(bs, p as int);
        }
        let (chunk, rest) = s.split_at(p);
        proof {
            vstd::utf8::valid_utf8_split(bs, p as int);
            let rb = rest.spec_bytes();
            assert(rb[0] == GIT_KIND_DELIMITER);
            reveal_with_fuel(is_char_boundary, 2);
            assert(is_char_boundary(rb, 1));
            let cb = chunk.spec_bytes();
            assert(cb =~= bs.take(p as int));
            if p > 4 {
                assert(cb[4] == bs[4]);
                vstd::utf8::is_char_boundary_iff_not_is_continuation_byte(cb, 4);
            } else {
                vstd::utf8::is_char_boundary_start_end_of_seq(cb);
            }
        }
        let (_, name) = rest.split_at(1);
        let (size, sha) = chunk.split_at(4);
        proof {
            vstd::utf8::valid_utf8_split(chunk.spec_bytes(), 4);
            vstd::utf8::valid_utf8_split(rest.spec_bytes(), 1);
            vstd::utf8::encode_utf8_decode_utf8(sha@);
            vstd::utf8::encode_utf8_decode_utf8(name@);
            assert(sha.spec_bytes() =~= bs.take(p as int).skip(4));
            assert(name.spec_bytes() =~= bs.skip(p + 1));
            assert(size.spec_bytes() =~= bs.take(p as int).take(4));
        }
        let sha = Sha::from_str(sha)?;
        let name = name.to_owned();
        let size = match parse_unsigned(size.as_bytes(), 16) {
            Some(n) => n,
            None => return Err(GitError::RefSize),
        };
        Ok(GitRef { sha, name, size })
    }
}

} // verus!
