//! Fetching a repository: the refs it advertises and the pack it sends.
pub mod pack;
pub mod refs;

use crate::buffers::{bytes_contents, bytes_mut_contents, bytes_mut_new, freeze, put_slice, put_u8};
use crate::clone::refs::{ref_line_splittable, ref_of, GitRef, GitRefView};
use crate::seqs::{concat_map, find_byte, first_pos, lemma_concat_map_prefix, lemma_first_pos};
use crate::text::text_bytes;
use bytes::Bytes;
use vstd::prelude::*;
use vstd::string::StringSliceAdditionalSpecFns;
use vstd::utf8::{is_char_boundary, valid_utf8};

verus! {

/// The byte that ends a line.
pub const GIT_PACK_NEWLINE: u8 = 10;

/// The byte that may come before a line's newline.
pub const CARRIAGE_RETURN: u8 = 13;

/// The lines of text with bytes `b`, as `str::lines` splits them: at each
/// newline, with one carriage return dropped before it; a final newline
/// starts no further line.
pub open spec fn lines_of(b: Seq<u8>) -> Seq<Seq<u8>>
    decreases b.len(),
{
    if b.len() == 0 {
        Seq::empty()
    } else {
        let p = first_pos(b, GIT_PACK_NEWLINE);
        proof {
            lemma_first_pos(b, GIT_PACK_NEWLINE);
        }
        if p == b.len() {
            seq![b]
        } else {
            let line = b.take(p);
            let line = if line.len() > 0 && line.last() == CARRIAGE_RETURN {
                line.drop_last()
            } else {
                line
            };
            seq![line] + lines_of(b.skip(p + 1))
        }
    }
}

/// The refs that the lines `lines` hold, in order; lines that hold none are skipped.
pub open spec fn refs_of(lines: Seq<Seq<u8>>) -> Seq<GitRefView>
    decreases lines.len(),
{
    if lines.len() == 0 {
        Seq::empty()
    } else {
        let rest = refs_of(lines.drop_first());
        match ref_of(lines[0]) {
            Ok(r) => seq![r] + rest,
            Err(_) => rest,
        }
    }
}

/// Whether every line can be read without a panic.
pub open spec fn lines_splittable(lines: Seq<Seq<u8>>) -> bool {
    forall|i: int| 0 <= i < lines.len() ==> ref_line_splittable(#[trigger] lines[i])
}

/// The refs that a remote's answer `text` advertises: every line that reads as a ref, in order. Reading a
/// line panics where its length prefix ends inside a character; `requires`
/// leaves that out.
pub fn parse_refs(text: &str) -> (v: Vec<GitRef>)
    requires
        lines_splittable(lines_of(text.spec_bytes())),
    ensures
        v@.map_values(|r: GitRef| r@) == refs_of(lines_of(text.spec_bytes())),
{
    let mut out: Vec<GitRef> = Vec::new();
    let mut rest: &str = text;
    proof {
        vstd::utf8::encode_utf8_valid_utf8(text@);
    }
    loop
        invariant_except_break
            valid_utf8(rest.spec_bytes()),
            lines_splittable(lines_of(rest.spec_bytes())),
            refs_of(lines_of(text.spec_bytes())) == out@.map_values(|r: GitRef| r@) + refs_of(
                lines_of(rest.spec_bytes()),
            ),
        ensures
            refs_of(lines_of(text.spec_bytes())) == out@.map_values(|r: GitRef| r@),
        decreases rest.spec_bytes().len(),
    {
        let b = rest.as_bytes();
        let ghost rb = b@;
        if b.len() == 0 {
            proof {
                let o = out@.map_values(|r: GitRef| r@);
                assert(o + Seq::<GitRefView>::empty() =~= o);
            }
            break ;
        }
        proof {
            lemma_first_pos(rb, GIT_PACK_NEWLINE);
        }
        let p = find_byte(b, GIT_PACK_NEWLINE);
        let at_end = p == b.len();
        proof {
            if !at_end {
                vstd::utf8::is_char_boundary_iff_not_is_continuation_byte(rb, p as int);
            } else {
                vstd::utf8::is_char_boundary_start_end_of_seq(rb);
            }
        }
        let (line, after) = rest.split_at(p);
        proof {
            vstd::utf8::valid_utf8_split(rb, p as int);
        }
        let lb = line.as_bytes();
        let strip = !at_end && lb.len() > 0 && lb[lb.len() - 1] == CARRIAGE_RETURN;
        proof {
            if strip {
                vstd::utf8::is_char_boundary_iff_not_is_continuation_byte(lb@, lb@.len() - 1);
            } else {
                vstd::utf8::is_char_boundary_start_end_of_seq(lb@);
            }
        }
        let cut = if strip {
            lb.len() - 1
        } else {
            lb.len()
        };
        let (line, _) = line.split_at(cut);
        let ghost this_line = line.spec_bytes();
        let ghost tail_lines = if at_end {
            Seq::<Seq<u8>>::empty()
        } else {
            lines_of(rb.skip(p + 1))
        };
        proof {
            if strip {
                assert(this_line =~= rb.take(p as int).drop_last());
            } else {
                assert(this_line =~= if at_end { rb } else { rb.take(p as int) });
            }
            assert(lines_of(rb) =~= seq![this_line] + tail_lines);
            assert((seq![this_line] + tail_lines).drop_first() =~= tail_lines);
            assert(lines_of(rb)[0] == this_line);
            assert(ref_line_splittable(lines_of(rb)[0]));
            assert forall|i: int| 0 <= i < tail_lines.len() implies ref_line_splittable(
                #[trigger] tail_lines[i],
            ) by {
                assert(tail_lines[i] == lines_of(rb)[i + 1]);
            }
        }
        let ghost before = out@.map_values(|r: GitRef| r@);
        match GitRef::from_str(line) {
            Ok(r) => {
                out.push(r);
                proof {
                    assert(out@.map_values(|r: GitRef| r@) =~= before.push(r@));
                    assert(before + (seq![r@] + refs_of(tail_lines)) =~= before.push(r@) + refs_of(
                        tail_lines,
                    ));
                }
            },
            Err(_) => {},
        }
        assert(refs_of(lines_of(text.spec_bytes())) == out@.map_values(|r: GitRef| r@) + refs_of(
            tail_lines,
        ));
        if at_end {
            proof {
                let o = out@.map_values(|r: GitRef| r@);
                assert(o + Seq::<GitRefView>::empty() =~= o);
            }
            break ;
        }
        proof {
            let ab = after.spec_bytes();
            assert(ab[0] == GIT_PACK_NEWLINE);
            reveal_with_fuel(is_char_boundary, 2);
            assert(is_char_boundary(ab, 1));
        }
        let (_, next) = after.split_at(1);
        proof {
            vstd::utf8::valid_utf8_split(after.spec_bytes(), 1);
            assert(next.spec_bytes() =~= rb.skip(p + 1));
        }
        rest = next;
    }
    out
}

/// `0032want `
pub open spec fn want_prefix() -> Seq<u8> {
    seq![48u8, 48, 51, 50, 119, 97, 110, 116, 32]
}

/// `0000`, then `0009done`, then a newline.
pub open spec fn request_end() -> Seq<u8> {
    seq![48u8, 48, 48, 48, 48, 48, 48, 57, 100, 111, 110, 101, GIT_PACK_NEWLINE]
}

/// The `want` line for the ref `r`: `0032want `, the hash text, a newline.
pub open spec fn want_line(r: GitRefView) -> Seq<u8> {
    want_prefix() + text_bytes(r.sha) + seq![GIT_PACK_NEWLINE]
}

/// The `want` lines for the refs `refs`, one after the other.
pub open spec fn want_lines(refs: Seq<GitRefView>) -> Seq<u8> {
    concat_map(refs, |r: GitRefView| want_line(r))
}

/// The body of the request for a pack: a `want` line per ref, then `0000`, `0009done`
/// and a newline. The body must fit a buffer.
pub fn pack_request_body(refs: &[GitRef]) -> (b: Bytes)
    requires
        want_lines(refs@.map_values(|r: GitRef| r@)).len() + 13 <= isize::MAX,
    ensures
        bytes_contents(b) == want_lines(refs@.map_values(|r: GitRef| r@)) + request_end(),
{
    let ghost all = refs@.map_values(|r: GitRef| r@);
    let want: Vec<u8> = vec![48u8, 48, 51, 50, 119, 97, 110, 116, 32];
    assert(want@ =~= want_prefix());
    let mut body = bytes_mut_new();
    let mut k: usize = 0;
    while k < refs.len()
        invariant
            all == refs@.map_values(|r: GitRef| r@),
            want@ == want_prefix(),
            k <= refs@.len(),
            want_lines(all).len() + 13 <= isize::MAX,
            bytes_mut_contents(body) == want_lines(all.take(k as int)),
        decreases refs.len() - k,
    {
        proof {
            lemma_concat_map_prefix(all, |r: GitRefView| want_line(r), k as int + 1);
        }
        put_slice(&mut body, want.as_slice());
        put_slice(&mut body, refs[k].sha.as_bytes());
        put_u8(&mut body, GIT_PACK_NEWLINE);
        k = k + 1;
        assert(bytes_mut_contents(body) =~= want_lines(all.take(k as int)));
    }
    assert(all.take(k as int) =~= all);
    let end: Vec<u8> = vec![48u8, 48, 48, 48];
    let done: Vec<u8> = vec![48u8, 48, 48, 57, 100, 111, 110, 101];
    put_slice(&mut body, end.as_slice());
    put_slice(&mut body, done.as_slice());
    put_u8(&mut body, GIT_PACK_NEWLINE);
    assert(bytes_mut_contents(body) =~= want_lines(all) + request_end());
    freeze(body)
}

} // verus!
