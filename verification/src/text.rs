//! Texts as UTF-8 byte sequences: where a text may be cut, and how it is
//! cut, spliced and rewritten without breaking a character.

use crate::search::{find_in, lemma_first_match_from, matches_at, occurs_at};
use vstd::prelude::*;
use vstd::string::StringExecFns;
use vstd::utf8::{
    decode_utf8, encode_utf8, encode_utf8_decode_utf8, encode_utf8_valid_utf8, is_char_boundary,
    is_char_boundary_iff_not_is_continuation_byte, is_char_boundary_start_end_of_seq,
    is_continuation_byte, length_of_first_scalar, pop_first_scalar, valid_first_scalar,
    valid_utf8, valid_utf8_split,
};

verus! {

/// The bytes of two texts written one after the other are the bytes of the
/// first followed by the bytes of the second.
pub proof fn lemma_encode_concat(a: Seq<char>, b: Seq<char>)
    ensures
        encode_utf8(a + b) == encode_utf8(a) + encode_utf8(b),
    decreases a.len(),
{
    if a.len() == 0 {
        assert(a + b =~= b);
        assert(encode_utf8(a) + encode_utf8(b) =~= encode_utf8(b));
    } else {
        assert((a + b).drop_first() =~= a.drop_first() + b);
        lemma_encode_concat(a.drop_first(), b);
        assert(encode_utf8(a + b) =~= encode_utf8(a) + encode_utf8(b));
    }
}

/// A text has at least as many bytes as characters.
pub proof fn lemma_encode_len(a: Seq<char>)
    ensures
        a.len() <= encode_utf8(a).len(),
    decreases a.len(),
{
    if a.len() > 0 {
        lemma_encode_len(a.drop_first());
    }
}

/// Only the empty text has no bytes.
pub proof fn lemma_encode_empty(a: Seq<char>)
    ensures
        encode_utf8(a).len() == 0 <==> a.len() == 0,
{
    lemma_encode_len(a);
}

/// Two texts with the same bytes are the same text.
pub proof fn lemma_encode_injective(a: Seq<char>, b: Seq<char>)
    requires
        encode_utf8(a) == encode_utf8(b),
    ensures
        a == b,
{
    encode_utf8_decode_utf8(a);
    encode_utf8_decode_utf8(b);
}

/// Where well-formed bytes open well-formed bytes, the longer may be cut at
/// the end of the shorter.
proof fn lemma_prefix_boundary(whole: Seq<u8>, head: Seq<u8>)
    requires
        valid_utf8(whole),
        valid_utf8(head),
        head.len() <= whole.len(),
        whole.subrange(0, head.len() as int) == head,
    ensures
        is_char_boundary(whole, head.len() as int),
    decreases head.len(),
{
    if head.len() > 0 {
        assert(whole[0] == whole.subrange(0, head.len() as int)[0]);
        let step = length_of_first_scalar(head);
        assert(valid_first_scalar(head));
        assert(step <= head.len());
        assert(length_of_first_scalar(whole) == step);
        let whole_rest = pop_first_scalar(whole);
        let head_rest = pop_first_scalar(head);
        assert(whole_rest.subrange(0, head_rest.len() as int) =~= head_rest) by {
            assert forall|k: int| 0 <= k < head_rest.len() implies whole_rest[k] == head_rest[k] by {
                assert(whole.subrange(0, head.len() as int)[step + k] == head[step + k]);
            }
        }
        lemma_prefix_boundary(whole_rest, head_rest);
    }
}

/// A place in well-formed bytes is a character boundary exactly if it is the
/// end or holds no continuation byte.
proof fn lemma_boundary_by_byte(bytes: Seq<u8>, i: int)
    requires
        valid_utf8(bytes),
        0 <= i <= bytes.len(),
    ensures
        is_char_boundary(bytes, i) <==> (i == bytes.len() || !is_continuation_byte(bytes[i])),
{
    if i == bytes.len() {
        is_char_boundary_start_end_of_seq(bytes);
    } else {
        is_char_boundary_iff_not_is_continuation_byte(bytes, i);
    }
}

/// A term that is not empty stands in a text only between character
/// boundaries.
pub proof fn lemma_match_boundaries(text: Seq<char>, term: Seq<char>, i: int)
    requires
        term.len() > 0,
        occurs_at(encode_utf8(text), encode_utf8(term), i),
    ensures
        0 <= i < i + encode_utf8(term).len() <= encode_utf8(text).len(),
        is_char_boundary(encode_utf8(text), i),
        is_char_boundary(encode_utf8(text), i + encode_utf8(term).len()),
{
    let bytes = encode_utf8(text);
    let needle = encode_utf8(term);
    let end = bytes.len() as int;
    encode_utf8_valid_utf8(text);
    encode_utf8_valid_utf8(term);
    assert(needle.len() > 0) by {
        vstd::utf8::encode_utf8_first_scalar(term);
    }
    assert(bytes[i] == bytes.subrange(i, i + needle.len())[0]);
    lemma_boundary_by_byte(needle, 0);
    is_char_boundary_start_end_of_seq(needle);
    lemma_boundary_by_byte(bytes, i);
    valid_utf8_split(bytes, i);
    let tail = bytes.subrange(i, end);
    assert(tail.subrange(0, needle.len() as int) =~= needle);
    lemma_prefix_boundary(tail, needle);
    lemma_boundary_by_byte(tail, needle.len() as int);
    lemma_boundary_by_byte(bytes, i + needle.len());
}

/// `start..end` is a range of `bytes` that begins and ends between
/// characters.
pub open spec fn is_char_range(bytes: Seq<u8>, start: int, end: int) -> bool {
    &&& 0 <= start <= end <= bytes.len()
    &&& is_char_boundary(bytes, start)
    &&& is_char_boundary(bytes, end)
}

/// The part of `text` between two character boundaries.
pub(crate) fn slice_between<'a>(text: &'a str, start: usize, end: usize) -> (part: &'a str)
    requires
        is_char_range(encode_utf8(text@), start as int, end as int),
    ensures
        encode_utf8(part@) == encode_utf8(text@).subrange(start as int, end as int),
{
    let ghost bytes = encode_utf8(text@);
    proof {
        encode_utf8_valid_utf8(text@);
        valid_utf8_split(bytes, end as int);
        lemma_boundary_by_byte(bytes, start as int);
        lemma_boundary_by_byte(bytes.subrange(0, end as int), start as int);
    }
    let (head, _) = text.split_at(end);
    let (_, part) = head.split_at(start);
    proof {
        assert(bytes.subrange(0, end as int).subrange(start as int, end as int) =~= bytes.subrange(
            start as int,
            end as int,
        ));
    }
    part
}

/// `text` with the range `start..end` taken out and `insert` put in its
/// place.
pub(crate) fn splice(text: &str, start: usize, end: usize, insert: &str) -> (r: String)
    requires
        is_char_range(encode_utf8(text@), start as int, end as int),
    ensures
        encode_utf8(r@) == encode_utf8(text@).subrange(0, start as int) + encode_utf8(insert@)
            + encode_utf8(text@).subrange(end as int, encode_utf8(text@).len() as int),
{
    let ghost bytes = encode_utf8(text@);
    proof {
        encode_utf8_valid_utf8(text@);
        is_char_boundary_start_end_of_seq(bytes);
    }
    let total: usize = text.as_bytes().len();
    let head = slice_between(text, 0, start);
    let tail = slice_between(text, end, total);
    let mut r = String::from_str(head);
    r.append(insert);
    r.append(tail);
    proof {
        lemma_encode_concat(head@, insert@);
        lemma_encode_concat(head@ + insert@, tail@);
    }
    r
}

/// `text` with every occurrence of `term` replaced by `with`, in one pass from
/// the left: an occurrence that begins inside an earlier one is passed over,
/// and what was put in is not searched again. An empty term replaces nothing.
pub open spec fn replaced(text: Seq<u8>, term: Seq<u8>, with: Seq<u8>) -> Seq<u8>
    decreases text.len(),
{
    if term.len() == 0 || text.len() < term.len() {
        text
    } else if occurs_at(text, term, 0) {
        with + replaced(text.skip(term.len() as int), term, with)
    } else {
        seq![text[0]] + replaced(text.skip(1), term, with)
    }
}

proof fn lemma_replaced_none(text: Seq<u8>, term: Seq<u8>, with: Seq<u8>)
    requires
        forall|j: int| !occurs_at(text, term, j),
    ensures
        replaced(text, term, with) == text,
    decreases text.len(),
{
    if term.len() == 0 || text.len() < term.len() {
    } else {
        assert(!occurs_at(text, term, 0));
        let rest = text.skip(1);
        assert forall|j: int| !occurs_at(rest, term, j) by {
            crate::search::lemma_occurs_in_window(text, term, 1, text.len() as int, j);
            assert(!occurs_at(text, term, 1 + j));
        }
        lemma_replaced_none(rest, term, with);
        assert(seq![text[0]] + rest =~= text);
    }
}

proof fn lemma_replaced_first(text: Seq<u8>, term: Seq<u8>, with: Seq<u8>, k: int)
    requires
        term.len() > 0,
        occurs_at(text, term, k),
        forall|j: int| 0 <= j < k ==> !occurs_at(text, term, j),
    ensures
        replaced(text, term, with) == text.subrange(0, k) + with + replaced(
            text.skip(k + term.len()),
            term,
            with,
        ),
    decreases k,
{
    if k == 0 {
        assert(text.subrange(0, 0) + with =~= with);
    } else {
        assert(!occurs_at(text, term, 0));
        let rest = text.skip(1);
        assert forall|j: int| occurs_at(rest, term, j) <==> (occurs_at(text, term, 1 + j) && 0
            <= j) by {
            crate::search::lemma_occurs_in_window(text, term, 1, text.len() as int, j);
        }
        lemma_replaced_first(rest, term, with, k - 1);
        assert(rest.skip(k - 1 + term.len()) =~= text.skip(k + term.len()));
        assert(seq![text[0]] + (rest.subrange(0, k - 1) + with + replaced(
            text.skip(k + term.len()),
            term,
            with,
        )) =~= text.subrange(0, k) + with + replaced(text.skip(k + term.len()), term, with));
    }
}

/// Replaces every occurrence of `term` in `text` by `with`.
pub fn replace_all(text: &str, term: &str, with: &str) -> (r: String)
    ensures
        encode_utf8(r@) == replaced(encode_utf8(text@), encode_utf8(term@), encode_utf8(with@)),
{
    let bytes = text.as_bytes();
    let needle = term.as_bytes();
    let n: usize = needle.len();
    let total: usize = bytes.len();
    if n == 0 {
        return text.to_owned();
    }
    proof {
        encode_utf8_valid_utf8(text@);
        is_char_boundary_start_end_of_seq(bytes@);
        assert(bytes@.subrange(0, total as int) =~= bytes@);
        vstd::utf8::encode_utf8_first_scalar(term@);
    }
    let mut out = String::new();
    let mut pos: usize = 0;
    proof {
        assert(encode_utf8(out@) + replaced(bytes@, needle@, encode_utf8(with@)) =~= replaced(
            bytes@,
            needle@,
            encode_utf8(with@),
        ));
    }
    loop
        invariant
            bytes@ == encode_utf8(text@),
            needle@ == encode_utf8(term@),
            term@.len() > 0,
            n == needle@.len(),
            n > 0,
            total == bytes@.len(),
            pos <= total,
            is_char_boundary(bytes@, pos as int),
            is_char_boundary(bytes@, total as int),
            encode_utf8(out@) + replaced(
                bytes@.subrange(pos as int, total as int),
                needle@,
                encode_utf8(with@),
            ) == replaced(bytes@, needle@, encode_utf8(with@)),
        decreases total - pos,
    {
        let ghost win = bytes@.subrange(pos as int, total as int);
        let ghost rep = encode_utf8(with@);
        proof {
            lemma_first_match_from(win, needle@, 0);
        }
        match find_in(bytes, needle, pos, total) {
            Some(at) => {
                proof {
                    crate::search::lemma_occurs_in_window(
                        bytes@,
                        needle@,
                        pos as int,
                        total as int,
                        at - pos,
                    );
                    lemma_match_boundaries(text@, term@, at as int);
                    lemma_replaced_first(win, needle@, rep, at - pos);
                    assert(win.subrange(0, at - pos) =~= bytes@.subrange(pos as int, at as int));
                    assert(win.skip(at - pos + n) =~= bytes@.subrange(at + n, total as int));
                }
                let piece = slice_between(text, pos, at);
                let ghost before = out@;
                out.append(piece);
                out.append(with);
                proof {
                    lemma_encode_concat(before, piece@);
                    lemma_encode_concat(before + piece@, with@);
                    assert(encode_utf8(out@) + replaced(
                        bytes@.subrange(at + n, total as int),
                        needle@,
                        rep,
                    ) =~= encode_utf8(before) + replaced(win, needle@, rep));
                }
                pos = at + n;
            },
            None => {
                proof {
                    lemma_replaced_none(win, needle@, rep);
                }
                let piece = slice_between(text, pos, total);
                let ghost before = out@;
                out.append(piece);
                proof {
                    lemma_encode_concat(before, piece@);
                }
                return out;
            },
        }
    }
}

/// Removes the characters `from..to` from `text`, counting characters, not
/// bytes.
///
/// Calls `egui::TextBuffer::delete_char_range` on a `String`. That function
/// stops the program when the range is reversed, which `requires` leaves out.
/// Of the rest the contract claims what its source shows: each end of the
/// range is turned into a byte index, the end of the text standing in for a
/// count of characters that the text does not reach, and the bytes between
/// the two are drained.
#[verifier::external_body]
fn delete_chars(text: &mut String, from: usize, to: usize)
    requires
        from <= to,
    ensures
        final(text)@ == old(text)@.subrange(
            0,
            if from <= old(text)@.len() {
                from as int
            } else {
                old(text)@.len() as int
            },
        ) + old(text)@.subrange(
            if to <= old(text)@.len() {
                to as int
            } else {
                old(text)@.len() as int
            },
            old(text)@.len() as int,
        ),
{
    egui::TextBuffer::delete_char_range(text, from..to);
}

/// Cuts the byte range `start..end` out of `text` and hands back what stood
/// there.
///
/// Nothing is cut, and `None` comes back, when the range is reversed, runs
/// past the end of the text or would break a character.
pub fn cut_range(text: &mut String, start: usize, end: usize) -> (r: Option<String>)
    ensures
        r is Some <==> is_char_range(encode_utf8(old(text)@), start as int, end as int),
        match r {
            Some(taken) => {
                &&& encode_utf8(taken@) == encode_utf8(old(text)@).subrange(
                    start as int,
                    end as int,
                )
                &&& encode_utf8(final(text)@) == encode_utf8(old(text)@).subrange(0, start as int)
                    + encode_utf8(old(text)@).subrange(
                    end as int,
                    encode_utf8(old(text)@).len() as int,
                )
            },
            None => final(text)@ == old(text)@,
        },
{
    let ghost chars = text@;
    let ghost bytes = encode_utf8(text@);
    let whole = text.as_str();
    let total: usize = whole.as_bytes().len();
    if !(start <= end && end <= total) {
        return None;
    }
    if !(whole.is_char_boundary(start) && whole.is_char_boundary(end)) {
        return None;
    }
    proof {
        encode_utf8_valid_utf8(chars);
        is_char_boundary_start_end_of_seq(bytes);
    }
    let head = slice_between(whole, 0, start);
    let mid = slice_between(whole, start, end);
    proof {
        valid_utf8_split(bytes, end as int);
    }
    let ghost tail = decode_utf8(bytes.subrange(end as int, total as int));
    let first: usize = head.unicode_len();
    let count: usize = mid.unicode_len();
    let taken = String::from_str(mid);
    proof {
        vstd::utf8::decode_utf8_encode_utf8(bytes.subrange(end as int, total as int));
        lemma_encode_len(chars);
        lemma_encode_concat(head@, mid@);
        lemma_encode_concat(head@ + mid@, tail);
        assert(encode_utf8(head@ + mid@ + tail) =~= bytes);
        lemma_encode_injective(head@ + mid@ + tail, chars);
        assert(first + count <= chars.len());
    }
    delete_chars(text, first, first + count);
    proof {
        assert(text@ =~= head@ + tail);
        lemma_encode_concat(head@, tail);
    }
    Some(taken)
}

/// Whether two texts are the same.
pub fn same_text(a: &str, b: &str) -> (r: bool)
    ensures
        r == (a@ == b@),
{
    let left = a.as_bytes();
    let right = b.as_bytes();
    if left.len() != right.len() {
        return false;
    }
    let same = matches_at(left, right, 0);
    proof {
        assert(left@.subrange(0, right@.len() as int) =~= left@);
        if same {
            lemma_encode_injective(a@, b@);
        }
    }
    same
}

} // verus!
