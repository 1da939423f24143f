//! Wrapped visual coordinates of an offset in a text: paragraphs are the
//! newline-delimited segments, and each paragraph is laid out in rows of one
//! wrap width.

use crate::search::{find_in, first_match, lemma_first_match_from, next_match, occurs_at};
use vstd::prelude::*;

verus! {

/// The byte that ends a paragraph.
pub const NEWLINE: u8 = 10;

/// How many newlines `s` holds.
pub open spec fn count_newlines(s: Seq<u8>) -> nat
    decreases s.len(),
{
    if s.len() == 0 {
        0
    } else {
        count_newlines(s.drop_last()) + if s.last() == NEWLINE {
            1nat
        } else {
            0nat
        }
    }
}

/// `s` split at its newlines. There is one paragraph more than there are
/// newlines, and no paragraph holds a newline.
///
/// Read from the left: a newline opens a new, empty paragraph; any other byte
/// joins the paragraph that is open.
pub open spec fn split_lines(s: Seq<u8>) -> Seq<Seq<u8>>
    decreases s.len(),
{
    if s.len() == 0 {
        seq![Seq::<u8>::empty()]
    } else {
        let before = split_lines(s.drop_last());
        if s.last() == NEWLINE {
            before.push(Seq::<u8>::empty())
        } else {
            before.update(before.len() - 1, before.last().push(s.last()))
        }
    }
}

/// `a / w`, rounded up.
pub open spec fn ceil_div(a: int, w: int) -> int {
    if a % w == 0 {
        a / w
    } else {
        a / w + 1
    }
}

/// The rows that `len` bytes take at wrap width `w`: at least one.
pub open spec fn rows_of(len: int, w: int) -> int {
    if ceil_div(len, w) < 1 {
        1
    } else {
        ceil_div(len, w)
    }
}

/// The rows that the paragraphs `paras` take together at wrap width `w`.
pub open spec fn rows_total(paras: Seq<Seq<u8>>, w: int) -> int
    decreases paras.len(),
{
    if paras.len() == 0 {
        0
    } else {
        rows_total(paras.drop_last(), w) + rows_of(paras.last().len() as int, w)
    }
}

/// Where a match lies: its offset in the text and its wrapped coordinates.
pub struct Placement {
    pub offset: int,
    pub row: int,
    pub column: int,
    pub paragraph: int,
    pub paragraph_offset: int,
}

/// The wrapped coordinates of a match of `term` at `offset`.
///
/// The paragraph is the number of newlines before the offset. The offset
/// within the paragraph is that of the first place where the term stands in
/// the paragraph, and 0 if it stands nowhere wholly inside it. The row counts
/// the rows of all paragraphs before, then the rows before the match in its
/// own paragraph; the column is what is left of the offset within the
/// paragraph.
pub open spec fn place(text: Seq<u8>, term: Seq<u8>, offset: int, width: int) -> Placement {
    let paragraphs = split_lines(text);
    let paragraph = count_newlines(text.subrange(0, offset)) as int;
    let within = match first_match(paragraphs[paragraph], term) {
        Some(i) => i,
        None => 0,
    };
    Placement {
        offset,
        row: rows_total(paragraphs.subrange(0, paragraph), width) + rows_of(within, width) - 1,
        column: within % width,
        paragraph,
        paragraph_offset: within,
    }
}

/// The next match of `term` from `from` on, with wraparound, and its wrapped
/// coordinates.
pub open spec fn locate(text: Seq<u8>, term: Seq<u8>, from: int, width: int) -> Option<
    Placement,
> {
    match next_match(text, term, from) {
        Some(offset) => Some(place(text, term, offset, width)),
        None => None,
    }
}

proof fn lemma_split_push(s: Seq<u8>, b: u8)
    ensures
        split_lines(s.push(b)) == if b == NEWLINE {
            split_lines(s).push(Seq::<u8>::empty())
        } else {
            split_lines(s).update(split_lines(s).len() - 1, split_lines(s).last().push(b))
        },
        count_newlines(s.push(b)) == count_newlines(s) + if b == NEWLINE {
            1nat
        } else {
            0nat
        },
{
    assert(s.push(b).drop_last() =~= s);
}

/// Splitting yields one paragraph more than there are newlines.
proof fn lemma_split_len(s: Seq<u8>)
    ensures
        split_lines(s).len() == count_newlines(s) + 1,
    decreases s.len(),
{
    if s.len() > 0 {
        lemma_split_len(s.drop_last());
    }
}

/// The paragraphs `paras` written one after the other, with a newline between
/// each two.
pub open spec fn join_lines(paras: Seq<Seq<u8>>) -> Seq<u8>
    decreases paras.len(),
{
    if paras.len() == 0 {
        Seq::empty()
    } else if paras.len() == 1 {
        paras[0]
    } else {
        join_lines(paras.drop_last()) + seq![NEWLINE] + paras.last()
    }
}

/// Splitting loses nothing and leaves no newline behind: the paragraphs of a
/// text, joined by newlines, are the text again, and no paragraph holds a
/// newline.
pub proof fn lemma_split_lines(s: Seq<u8>)
    ensures
        split_lines(s).len() == count_newlines(s) + 1,
        join_lines(split_lines(s)) == s,
        forall|i: int, j: int|
            0 <= i < split_lines(s).len() && 0 <= j < split_lines(s)[i].len() ==> split_lines(
                s,
            )[i][j] != NEWLINE,
        forall|i: int| 0 <= i < split_lines(s).len() ==> split_lines(s)[i].len() <= s.len(),
    decreases s.len(),
{
    let now = split_lines(s);
    if s.len() == 0 {
        assert(now.len() == 1);
        assert(join_lines(now) =~= s);
    } else {
        let shorter = s.drop_last();
        let before = split_lines(shorter);
        lemma_split_lines(shorter);
        assert(shorter.push(s.last()) =~= s);
        if s.last() == NEWLINE {
            assert(now.drop_last() =~= before);
            assert(join_lines(now) =~= s);
        } else {
            if before.len() == 1 {
                assert(join_lines(now) =~= s);
            } else {
                assert(now.drop_last() =~= before.drop_last());
                assert(join_lines(now) =~= s);
            }
            assert forall|i: int, j: int|
                0 <= i < now.len() && 0 <= j < now[i].len() implies now[i][j] != NEWLINE by {
                if i < now.len() - 1 {
                    assert(now[i] == before[i]);
                } else if j < before[i].len() {
                    assert(now[i][j] == before[i][j]);
                }
            }
        }
        assert forall|i: int| 0 <= i < now.len() implies now[i].len() <= s.len() by {
            if i < before.len() {
                assert(before[i].len() <= shorter.len());
            }
        }
    }
}

/// A text holds at least as many newlines as any of its opening parts.
pub proof fn lemma_count_newlines_prefix(s: Seq<u8>, i: int)
    requires
        0 <= i <= s.len(),
    ensures
        count_newlines(s.subrange(0, i)) <= count_newlines(s),
    decreases s.len(),
{
    if i == s.len() {
        assert(s.subrange(0, i) =~= s);
    } else {
        assert(s.drop_last().subrange(0, i) =~= s.subrange(0, i));
        lemma_count_newlines_prefix(s.drop_last(), i);
    }
}

/// The caret behind a match of `len` bytes whose start lies at `start`: in
/// the same row and paragraph, `len` bytes further on.
pub open spec fn match_end(start: Placement, len: int) -> Placement {
    Placement {
        offset: start.offset + len,
        column: start.column + len,
        paragraph_offset: start.paragraph_offset + len,
        ..start
    }
}

/// The coordinates of a match lie inside the text, and so does the caret
/// behind it: the match ends inside the text, and the offset within its
/// paragraph, which the column never exceeds, leaves room for the term.
pub proof fn lemma_place_bounds(text: Seq<u8>, term: Seq<u8>, offset: int, width: int)
    requires
        width > 0,
        occurs_at(text, term, offset),
    ensures
        0 <= place(text, term, offset, width).paragraph < split_lines(text).len(),
        0 <= place(text, term, offset, width).column <= place(
            text,
            term,
            offset,
            width,
        ).paragraph_offset,
        place(text, term, offset, width).paragraph_offset + term.len() <= text.len(),
        offset + term.len() <= text.len(),
{
    let paragraphs = split_lines(text);
    let paragraph = count_newlines(text.subrange(0, offset)) as int;
    lemma_split_lines(text);
    lemma_count_newlines_prefix(text, offset);
    lemma_first_match_from(paragraphs[paragraph], term, 0);
    let within = place(text, term, offset, width).paragraph_offset;
    assert(0 <= within);
    assert(within + term.len() <= text.len());
    vstd::arithmetic::div_mod::lemma_mod_decreases(within as nat, width as nat);
    vstd::arithmetic::div_mod::lemma_mod_bound(within, width);
}

/// The paragraphs of a text cut at a paragraph's end open the paragraphs of
/// the whole text.
proof fn lemma_split_stable(t: Seq<u8>, i: int)
    requires
        0 <= i <= t.len(),
        i == t.len() || t[i] == NEWLINE,
    ensures
        split_lines(t.subrange(0, i)).len() <= split_lines(t).len(),
        i < t.len() ==> split_lines(t.subrange(0, i)).len() < split_lines(t).len(),
        split_lines(t).subrange(0, split_lines(t.subrange(0, i)).len() as int) == split_lines(
            t.subrange(0, i),
        ),
    decreases t.len(),
{
    let pre = split_lines(t.subrange(0, i));
    let all = split_lines(t);
    if i == t.len() {
        assert(t.subrange(0, i) =~= t);
        assert(all.subrange(0, all.len() as int) =~= all);
    } else {
        let shorter = t.drop_last();
        let mid = split_lines(shorter);
        lemma_split_len(shorter);
        if i == t.len() - 1 {
            assert(shorter =~= t.subrange(0, i));
            assert(all.subrange(0, pre.len() as int) =~= pre);
        } else {
            assert(shorter.subrange(0, i) =~= t.subrange(0, i));
            lemma_split_stable(shorter, i);
            assert(all.subrange(0, pre.len() as int) =~= mid.subrange(0, pre.len() as int));
        }
    }
}

proof fn lemma_ceil_div_bound(a: int, w: int)
    requires
        0 <= a,
        0 < w,
    ensures
        0 <= a / w <= a,
        0 <= a % w < w,
        0 <= ceil_div(a, w) <= a,
        ceil_div(a, w) - 1 <= a / w,
{
    vstd::arithmetic::div_mod::lemma_fundamental_div_mod(a, w);
    vstd::arithmetic::div_mod::lemma_mod_bound(a, w);
    vstd::arithmetic::div_mod::lemma_div_pos_is_pos(a, w);
    let q = a / w;
    let r = a % w;
    assert(q <= w * q) by (nonlinear_arith)
        requires
            0 <= q,
            0 < w,
    ;
    if r != 0 {
        assert(2 * q <= w * q) by (nonlinear_arith)
            requires
                0 <= q,
                2 <= w,
        ;
    }
}

/// The rows that `len` bytes take at wrap width `width`.
fn rows_for(len: usize, width: usize) -> (r: usize)
    requires
        width > 0,
    ensures
        r == rows_of(len as int, width as int),
        1 <= r,
        r <= len || r == 1,
{
    proof {
        lemma_ceil_div_bound(len as int, width as int);
    }
    let q: usize = len / width;
    let up: usize = if len % width == 0 {
        q
    } else {
        q + 1
    };
    if up < 1 {
        1
    } else {
        up
    }
}

/// A match of a term, by its offset in the text and its wrapped coordinates.
#[derive(Clone, Copy, Debug, PartialEq, Eq, Structural)]
pub struct Match {
    pub offset: usize,
    pub row: usize,
    pub column: usize,
    pub paragraph: usize,
    pub paragraph_offset: usize,
}

impl View for Match {
    type V = Placement;

    open spec fn view(&self) -> Placement {
        Placement {
            offset: self.offset as int,
            row: self.row as int,
            column: self.column as int,
            paragraph: self.paragraph as int,
            paragraph_offset: self.paragraph_offset as int,
        }
    }
}

/// A caret in the text view, in each of the view's three ways of counting:
/// bytes from the start of the text, row and column, and paragraph and offset
/// within it.
#[derive(Clone, Copy, Debug, PartialEq, Eq, Structural)]
pub struct Caret {
    pub index: usize,
    pub row: usize,
    pub column: usize,
    pub paragraph: usize,
    pub offset: usize,
}

impl View for Caret {
    type V = Placement;

    open spec fn view(&self) -> Placement {
        Placement {
            offset: self.index as int,
            row: self.row as int,
            column: self.column as int,
            paragraph: self.paragraph as int,
            paragraph_offset: self.offset as int,
        }
    }
}

/// The two carets between which a match is shown as selected: `anchor`
/// before it and `head` behind it.
#[derive(Clone, Copy, Debug, PartialEq, Eq, Structural)]
pub struct Highlight {
    pub anchor: Caret,
    pub head: Caret,
}

impl Highlight {
    /// The highlight lies on a match of `len` bytes at `start`.
    pub open spec fn covers(self, start: Placement, len: int) -> bool {
        self.anchor@ == start && self.head@ == match_end(start, len)
    }
}

impl Match {
    /// The carets before and behind the match, for a term of `len` bytes.
    pub(crate) fn highlight(&self, len: usize) -> (r: Highlight)
        requires
            self.offset + len <= usize::MAX,
            self.column + len <= usize::MAX,
            self.paragraph_offset + len <= usize::MAX,
        ensures
            r.covers(self@, len as int),
    {
        Highlight {
            anchor: Caret {
                index: self.offset,
                row: self.row,
                column: self.column,
                paragraph: self.paragraph,
                offset: self.paragraph_offset,
            },
            head: Caret {
                index: self.offset + len,
                row: self.row,
                column: self.column + len,
                paragraph: self.paragraph,
                offset: self.paragraph_offset + len,
            },
        }
    }
}

/// Computes the wrapped coordinates of a match of `term` at `offset`.
pub(crate) fn place_at(text: &[u8], term: &[u8], offset: usize, width: usize) -> (r: Match)
    requires
        offset <= text@.len(),
        width > 0,
    ensures
        r@ == place(text@, term@, offset as int, width as int),
        r.row <= text@.len(),
{
    let total: usize = text.len();
    let mut i: usize = 0;
    let mut paragraph: usize = 0;
    let mut start: usize = 0;
    let mut rows: usize = 0;
    proof {
        assert(text@.subrange(0, 0) =~= Seq::<u8>::empty());
        assert(split_lines(text@.subrange(0, 0)).subrange(0, 0) =~= Seq::<Seq<u8>>::empty());
        assert(text@.subrange(0, 0) =~= split_lines(text@.subrange(0, 0))[0]);
    }
    while i < offset
        invariant
            total == text@.len(),
            offset <= total,
            width > 0,
            0 <= start <= i <= offset,
            rows <= start,
            paragraph <= start,
            paragraph == count_newlines(text@.subrange(0, i as int)),
            split_lines(text@.subrange(0, i as int)).len() == paragraph + 1,
            split_lines(text@.subrange(0, i as int))[paragraph as int] == text@.subrange(
                start as int,
                i as int,
            ),
            rows == rows_total(
                split_lines(text@.subrange(0, i as int)).subrange(0, paragraph as int),
                width as int,
            ),
        decreases offset - i,
    {
        let ghost pre = split_lines(text@.subrange(0, i as int));
        proof {
            lemma_split_push(text@.subrange(0, i as int), text@[i as int]);
            assert(text@.subrange(0, i + 1) =~= text@.subrange(0, i as int).push(text@[i as int]));
        }
        let ghost post = split_lines(text@.subrange(0, i + 1));
        if text[i] == NEWLINE {
            let more = rows_for(i - start, width);
            proof {
                assert(post.subrange(0, paragraph + 1) =~= pre);
                assert(pre.drop_last() =~= pre.subrange(0, paragraph as int));
                assert(text@.subrange(i + 1, i + 1) =~= Seq::<u8>::empty());
            }
            rows = rows + more;
            paragraph = paragraph + 1;
            start = i + 1;
        } else {
            proof {
                assert(post.subrange(0, paragraph as int) =~= pre.subrange(0, paragraph as int));
                assert(text@.subrange(start as int, i + 1) =~= text@.subrange(
                    start as int,
                    i as int,
                ).push(text@[i as int]));
            }
        }
        i = i + 1;
    }
    let ghost done = split_lines(text@.subrange(0, offset as int)).subrange(0, paragraph as int);
    let mut end: usize = offset;
    while end < total && text[end] != NEWLINE
        invariant
            total == text@.len(),
            start <= offset <= end <= total,
            split_lines(text@.subrange(0, end as int)).len() == paragraph + 1,
            split_lines(text@.subrange(0, end as int))[paragraph as int] == text@.subrange(
                start as int,
                end as int,
            ),
            split_lines(text@.subrange(0, end as int)).subrange(0, paragraph as int) == done,
        decreases total - end,
    {
        proof {
            let pre = split_lines(text@.subrange(0, end as int));
            lemma_split_push(text@.subrange(0, end as int), text@[end as int]);
            assert(text@.subrange(0, end + 1) =~= text@.subrange(0, end as int).push(
                text@[end as int],
            ));
            let post = split_lines(text@.subrange(0, end + 1));
            assert(post.subrange(0, paragraph as int) =~= pre.subrange(0, paragraph as int));
            assert(text@.subrange(start as int, end + 1) =~= text@.subrange(
                start as int,
                end as int,
            ).push(text@[end as int]));
        }
        end = end + 1;
    }
    proof {
        let cut = split_lines(text@.subrange(0, end as int));
        let all = split_lines(text@);
        lemma_split_stable(text@, end as int);
        assert(all.subrange(0, cut.len() as int)[paragraph as int] == all[paragraph as int]);
        assert(all.subrange(0, paragraph as int) =~= cut.subrange(0, paragraph as int));
    }
    let within: usize = match find_in(text, term, start, end) {
        Some(at) => at - start,
        None => 0,
    };
    let own = rows_for(within, width);
    Match {
        offset,
        row: rows + (own - 1),
        column: within % width,
        paragraph,
        paragraph_offset: within,
    }
}

} // verus!
