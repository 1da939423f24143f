//! Substring search over byte sequences: where a term occurs, which
//! occurrence comes first or last, and the wraparound order in which
//! repeated searches visit the occurrences.

use vstd::prelude::*;

verus! {

/// `term` stands in `text` at offset `i`.
pub open spec fn occurs_at(text: Seq<u8>, term: Seq<u8>, i: int) -> bool {
    &&& 0 <= i
    &&& i + term.len() <= text.len()
    &&& text.subrange(i, i + term.len()) == term
}

/// `i` is the lowest offset at or after `from` at which `term` stands in
/// `text`.
pub open spec fn is_first_match_from(text: Seq<u8>, term: Seq<u8>, from: int, i: int) -> bool {
    &&& from <= i
    &&& occurs_at(text, term, i)
    &&& forall|j: int| from <= j < i ==> !occurs_at(text, term, j)
}

/// `i` is the highest offset at which `term` stands in `text`.
pub open spec fn is_last_match(text: Seq<u8>, term: Seq<u8>, i: int) -> bool {
    &&& occurs_at(text, term, i)
    &&& forall|j: int| i < j ==> !occurs_at(text, term, j)
}

/// The lowest offset at or after `from` at which `term` stands in `text`, if
/// it stands anywhere from there on.
pub open spec fn first_match_from(text: Seq<u8>, term: Seq<u8>, from: int) -> Option<int> {
    if exists|i: int| from <= i && occurs_at(text, term, i) {
        Some(choose|i: int| is_first_match_from(text, term, from, i))
    } else {
        None
    }
}

/// The lowest offset at which `term` stands in `text`, if it stands anywhere.
pub open spec fn first_match(text: Seq<u8>, term: Seq<u8>) -> Option<int> {
    first_match_from(text, term, 0)
}

/// The highest offset at which `term` stands in `text`, if it stands anywhere.
pub open spec fn last_match(text: Seq<u8>, term: Seq<u8>) -> Option<int> {
    if exists|i: int| occurs_at(text, term, i) {
        Some(choose|i: int| is_last_match(text, term, i))
    } else {
        None
    }
}

/// Wraparound search: the first occurrence at or after `from`; if there is
/// none, the first occurrence in the whole text. An empty term matches
/// nowhere.
pub open spec fn next_match(text: Seq<u8>, term: Seq<u8>, from: int) -> Option<int> {
    if term.len() == 0 {
        None
    } else {
        match first_match_from(text, term, from) {
            Some(i) => Some(i),
            None => first_match(text, term),
        }
    }
}

/// Backward wraparound search: the last occurrence that ends at or before
/// `before`; if there is none, the last occurrence in the whole text. An
/// empty term matches nowhere.
pub open spec fn prev_match(text: Seq<u8>, term: Seq<u8>, before: int) -> Option<int> {
    if term.len() == 0 {
        None
    } else {
        let cut = if before < 0 {
            0
        } else if before > text.len() {
            text.len() as int
        } else {
            before
        };
        match last_match(text.subrange(0, cut), term) {
            Some(i) => Some(i),
            None => last_match(text, term),
        }
    }
}

/// The occurrences of `term` in `text` below offset `hi`, in rising order.
pub open spec fn matches_below(text: Seq<u8>, term: Seq<u8>, hi: int) -> Seq<int>
    decreases hi,
{
    if hi <= 0 {
        Seq::empty()
    } else {
        let rest = matches_below(text, term, hi - 1);
        if occurs_at(text, term, hi - 1) {
            rest.push(hi - 1)
        } else {
            rest
        }
    }
}

/// Every occurrence of `term` in `text`, in rising order.
pub open spec fn all_matches(text: Seq<u8>, term: Seq<u8>) -> Seq<int> {
    matches_below(text, term, text.len() as int + 1)
}

/// What the `j`-th of a run of wraparound searches finds, when the first
/// starts at `from` and each later one starts one past the match before.
pub open spec fn nth_match(text: Seq<u8>, term: Seq<u8>, from: int, j: nat) -> Option<int>
    decreases j,
{
    if j == 0 {
        next_match(text, term, from)
    } else {
        match nth_match(text, term, from, (j - 1) as nat) {
            Some(o) => next_match(text, term, o + 1),
            None => None,
        }
    }
}

proof fn lemma_lowest_from_exists(text: Seq<u8>, term: Seq<u8>, from: int, w: int)
    requires
        from <= w,
        occurs_at(text, term, w),
    ensures
        exists|i: int| is_first_match_from(text, term, from, i),
    decreases w - from,
{
    if exists|j: int| from <= j < w && occurs_at(text, term, j) {
        let j = choose|j: int| from <= j < w && occurs_at(text, term, j);
        lemma_lowest_from_exists(text, term, from, j);
    } else {
        assert(is_first_match_from(text, term, from, w));
    }
}

proof fn lemma_highest_exists(text: Seq<u8>, term: Seq<u8>, w: int)
    requires
        occurs_at(text, term, w),
    ensures
        exists|i: int| is_last_match(text, term, i),
    decreases text.len() - w,
{
    if exists|j: int| w < j && occurs_at(text, term, j) {
        let j = choose|j: int| w < j && occurs_at(text, term, j);
        lemma_highest_exists(text, term, j);
    } else {
        assert(is_last_match(text, term, w));
    }
}

/// `first_match_from` is the lowest occurrence at or after `from` when there
/// is one, and `None` exactly when there is none.
pub proof fn lemma_first_match_from(text: Seq<u8>, term: Seq<u8>, from: int)
    ensures
        match first_match_from(text, term, from) {
            Some(i) => is_first_match_from(text, term, from, i),
            None => forall|j: int| from <= j ==> !occurs_at(text, term, j),
        },
{
    if exists|i: int| from <= i && occurs_at(text, term, i) {
        let w = choose|i: int| from <= i && occurs_at(text, term, i);
        lemma_lowest_from_exists(text, term, from, w);
    }
}

/// `last_match` is the highest occurrence when there is one, and `None`
/// exactly when there is none.
pub proof fn lemma_last_match(text: Seq<u8>, term: Seq<u8>)
    ensures
        match last_match(text, term) {
            Some(i) => is_last_match(text, term, i),
            None => forall|j: int| !occurs_at(text, term, j),
        },
{
    if exists|i: int| occurs_at(text, term, i) {
        let w = choose|i: int| occurs_at(text, term, i);
        lemma_highest_exists(text, term, w);
    }
}

/// The lowest occurrence at or after `from` is unique.
pub proof fn lemma_first_match_from_is(text: Seq<u8>, term: Seq<u8>, from: int, i: int)
    requires
        is_first_match_from(text, term, from, i),
    ensures
        first_match_from(text, term, from) == Some(i),
{
    lemma_first_match_from(text, term, from);
    let c = first_match_from(text, term, from).unwrap();
    if c < i {
        assert(occurs_at(text, term, c));
    } else if i < c {
        assert(occurs_at(text, term, i));
    }
}

/// The highest occurrence is unique.
pub proof fn lemma_last_match_is(text: Seq<u8>, term: Seq<u8>, i: int)
    requires
        is_last_match(text, term, i),
    ensures
        last_match(text, term) == Some(i),
{
    lemma_last_match(text, term);
    let c = last_match(text, term).unwrap();
    if c < i {
        assert(occurs_at(text, term, i));
    } else if i < c {
        assert(occurs_at(text, term, c));
    }
}

/// An occurrence inside a window of `text` is an occurrence in `text`, moved
/// by the window's start, that ends inside the window.
pub proof fn lemma_occurs_in_window(text: Seq<u8>, term: Seq<u8>, lo: int, hi: int, i: int)
    requires
        0 <= lo <= hi <= text.len(),
    ensures
        occurs_at(text.subrange(lo, hi), term, i) <==> (occurs_at(text, term, lo + i) && 0 <= i
            && lo + i + term.len() <= hi),
{
    let win = text.subrange(lo, hi);
    if 0 <= i && lo + i + term.len() <= hi {
        assert(win.subrange(i, i + term.len()) =~= text.subrange(lo + i, lo + i + term.len()));
    }
}

/// Searching from `from` is searching the tail that starts there.
pub proof fn lemma_first_match_from_tail(text: Seq<u8>, term: Seq<u8>, from: int)
    requires
        0 <= from <= text.len(),
    ensures
        first_match_from(text, term, from) == match first_match(
            text.subrange(from, text.len() as int),
            term,
        ) {
            Some(i) => Some(from + i),
            None => None,
        },
{
    let end = text.len() as int;
    let tail = text.subrange(from, end);
    lemma_first_match_from(tail, term, 0);
    assert forall|j: int| occurs_at(tail, term, j) <==> (occurs_at(text, term, from + j) && 0
        <= j) by {
        lemma_occurs_in_window(text, term, from, end, j);
    }
    match first_match(tail, term) {
        Some(i) => {
            assert forall|j: int| from <= j < from + i implies !occurs_at(text, term, j) by {
                assert(!occurs_at(tail, term, j - from));
            }
            lemma_first_match_from_is(text, term, from, from + i);
        },
        None => {
            lemma_first_match_from(text, term, from);
            if first_match_from(text, term, from) is Some {
                let c = first_match_from(text, term, from).unwrap();
                assert(occurs_at(tail, term, c - from));
            }
        },
    }
}

/// What a wraparound search finds is an occurrence, and only a term that is
/// not empty is ever found.
pub proof fn lemma_next_match_occurs(text: Seq<u8>, term: Seq<u8>, from: int)
    ensures
        next_match(text, term, from) matches Some(o) ==> term.len() > 0 && occurs_at(text, term, o),
        next_match(text, term, from) is None <==> (term.len() == 0 || forall|j: int|
            !occurs_at(text, term, j)),
{
    lemma_first_match_from(text, term, from);
    lemma_first_match_from(text, term, 0);
    if term.len() > 0 && next_match(text, term, from) is None {
        assert forall|j: int| !occurs_at(text, term, j) by {
            if occurs_at(text, term, j) {
                assert(0 <= j);
            }
        }
    }
}

/// A wraparound search that starts at or past the end of the text finds what
/// any other such search finds.
pub proof fn lemma_next_match_past_end(text: Seq<u8>, term: Seq<u8>, a: int, b: int)
    requires
        text.len() <= a,
        text.len() <= b,
    ensures
        next_match(text, term, a) == next_match(text, term, b),
{
    lemma_first_match_from(text, term, a);
    lemma_first_match_from(text, term, b);
}

/// Whether `term` stands in `text` at offset `i`.
pub(crate) fn matches_at(text: &[u8], term: &[u8], i: usize) -> (b: bool)
    requires
        i + term@.len() <= text@.len(),
    ensures
        b == occurs_at(text@, term@, i as int),
{
    let n: usize = term.len();
    let total: usize = text.len();
    let mut j: usize = 0;
    while j < n
        invariant
            n == term@.len(),
            total == text@.len(),
            i + n <= total,
            0 <= j <= n,
            forall|k: int| 0 <= k < j ==> text@[i + k] == term@[k],
        decreases n - j,
    {
        if text[i + j] != term[j] {
            proof {
                let cut = text@.subrange(i as int, i + n);
                assert(cut[j as int] == text@[i + j]);
            }
            return false;
        }
        j = j + 1;
    }
    assert(text@.subrange(i as int, i + n) =~= term@);
    true
}

/// Searches the window `lo..hi` of `text` for the first place where `term`
/// stands wholly inside the window.
///
/// The result is an offset into `text`; the model counts from the window's
/// start.
pub(crate) fn find_in(text: &[u8], term: &[u8], lo: usize, hi: usize) -> (r: Option<usize>)
    requires
        lo <= hi <= text@.len(),
    ensures
        match r {
            Some(i) => lo <= i && i + term@.len() <= hi && first_match(
                text@.subrange(lo as int, hi as int),
                term@,
            ) == Some(i - lo),
            None => first_match(text@.subrange(lo as int, hi as int), term@) is None,
        },
{
    let n: usize = term.len();
    let ghost win = text@.subrange(lo as int, hi as int);
    if hi - lo < n {
        proof {
            lemma_first_match_from(win, term@, 0);
        }
        return None;
    }
    let last: usize = hi - n;
    let mut i: usize = lo;
    loop
        invariant
            n == term@.len(),
            lo <= hi <= text@.len(),
            last == hi - n,
            lo <= i <= last,
            win == text@.subrange(lo as int, hi as int),
            forall|j: int| 0 <= j < i - lo ==> !occurs_at(win, term@, j),
        decreases last - i,
    {
        let hit = matches_at(text, term, i);
        proof {
            lemma_occurs_in_window(text@, term@, lo as int, hi as int, i - lo);
        }
        if hit {
            proof {
                lemma_first_match_from_is(win, term@, 0, i - lo);
            }
            return Some(i);
        }
        if i == last {
            proof {
                lemma_first_match_from(win, term@, 0);
            }
            return None;
        }
        i = i + 1;
    }
}

/// Searches the window `lo..hi` of `text` for the last place where `term`
/// stands wholly inside the window.
///
/// The result is an offset into `text`; the model counts from the window's
/// start.
pub(crate) fn rfind_in(text: &[u8], term: &[u8], lo: usize, hi: usize) -> (r: Option<usize>)
    requires
        lo <= hi <= text@.len(),
    ensures
        match r {
            Some(i) => lo <= i && i + term@.len() <= hi && last_match(
                text@.subrange(lo as int, hi as int),
                term@,
            ) == Some(i - lo),
            None => last_match(text@.subrange(lo as int, hi as int), term@) is None,
        },
{
    let n: usize = term.len();
    let ghost win = text@.subrange(lo as int, hi as int);
    if hi - lo < n {
        proof {
            lemma_last_match(win, term@);
        }
        return None;
    }
    let mut i: usize = hi - n;
    loop
        invariant
            n == term@.len(),
            lo <= hi <= text@.len(),
            lo <= i <= hi - n,
            win == text@.subrange(lo as int, hi as int),
            forall|j: int| i - lo < j ==> !occurs_at(win, term@, j),
        decreases i - lo,
    {
        let hit = matches_at(text, term, i);
        proof {
            lemma_occurs_in_window(text@, term@, lo as int, hi as int, i - lo);
        }
        if hit {
            proof {
                lemma_last_match_is(win, term@, i - lo);
            }
            return Some(i);
        }
        if i == lo {
            proof {
                lemma_last_match(win, term@);
            }
            return None;
        }
        i = i - 1;
    }
}

/// `matches_below` lists occurrences below `hi`, each larger than the one
/// before.
pub proof fn lemma_matches_below(text: Seq<u8>, term: Seq<u8>, hi: int)
    ensures
        forall|a: int|
            0 <= a < matches_below(text, term, hi).len() ==> {
                &&& 0 <= #[trigger] matches_below(text, term, hi)[a] < hi
                &&& occurs_at(text, term, matches_below(text, term, hi)[a])
            },
        forall|a: int, b: int|
            0 <= a < b < matches_below(text, term, hi).len() ==> matches_below(text, term, hi)[a]
                < matches_below(text, term, hi)[b],
    decreases hi,
{
    let now = matches_below(text, term, hi);
    if hi > 0 {
        let rest = matches_below(text, term, hi - 1);
        lemma_matches_below(text, term, hi - 1);
        assert forall|a: int| 0 <= a < now.len() implies 0 <= #[trigger] now[a] < hi && occurs_at(
            text,
            term,
            now[a],
        ) by {
            if a < rest.len() {
                assert(now[a] == rest[a]);
            }
        }
        assert forall|a: int, b: int| 0 <= a < b < now.len() implies now[a] < now[b] by {
            assert(now[a] == rest[a]);
            if b < rest.len() {
                assert(now[b] == rest[b]);
            }
        }
    }
}

/// With no occurrence from `lo` up to `hi`, the list below `hi` is the list
/// below `lo`.
pub proof fn lemma_matches_below_gap(text: Seq<u8>, term: Seq<u8>, lo: int, hi: int)
    requires
        lo <= hi,
        forall|j: int| lo <= j < hi ==> !occurs_at(text, term, j),
    ensures
        matches_below(text, term, hi) == matches_below(text, term, lo),
    decreases hi - lo,
{
    if lo < hi {
        lemma_matches_below_gap(text, term, lo, hi - 1);
        if hi <= 0 {
        } else {
            assert(!occurs_at(text, term, hi - 1));
        }
    }
}

/// The list below `lo` opens the list below any later `hi`.
pub proof fn lemma_matches_below_prefix(text: Seq<u8>, term: Seq<u8>, lo: int, hi: int)
    requires
        lo <= hi,
    ensures
        matches_below(text, term, lo).len() <= matches_below(text, term, hi).len(),
        matches_below(text, term, hi).subrange(0, matches_below(text, term, lo).len() as int)
            == matches_below(text, term, lo),
    decreases hi - lo,
{
    let short = matches_below(text, term, lo);
    if lo < hi {
        lemma_matches_below_prefix(text, term, lo, hi - 1);
        let mid = matches_below(text, term, hi - 1);
        let long = matches_below(text, term, hi);
        if hi <= 0 {
            assert(long =~= mid);
        } else {
            assert(long.subrange(0, short.len() as int) =~= mid.subrange(0, short.len() as int));
        }
    } else {
        assert(short.subrange(0, short.len() as int) =~= short);
    }
}

/// An occurrence stands in the list of all occurrences, at the index that
/// counts the occurrences below it.
pub proof fn lemma_match_rank(text: Seq<u8>, term: Seq<u8>, o: int)
    requires
        occurs_at(text, term, o),
    ensures
        matches_below(text, term, o).len() < all_matches(text, term).len(),
        all_matches(text, term)[matches_below(text, term, o).len() as int] == o,
{
    let below = matches_below(text, term, o);
    let upto = matches_below(text, term, o + 1);
    let all = all_matches(text, term);
    assert(upto == below.push(o));
    lemma_matches_below_prefix(text, term, o + 1, text.len() as int + 1);
    assert(all.subrange(0, upto.len() as int)[below.len() as int] == all[below.len() as int]);
}

/// Closed form of the wraparound search: it finds the occurrence whose index
/// in the rising list is the number of occurrences below `from`, and wraps to
/// index 0 when every occurrence lies below `from`.
pub proof fn lemma_next_match_index(text: Seq<u8>, term: Seq<u8>, from: int)
    requires
        term.len() > 0,
    ensures
        matches_below(text, term, from).len() <= all_matches(text, term).len(),
        all_matches(text, term).len() == 0 ==> next_match(text, term, from) is None,
        all_matches(text, term).len() > 0 ==> next_match(text, term, from) == Some(
            all_matches(text, term)[(matches_below(text, term, from).len() % all_matches(
                text,
                term,
            ).len()) as int],
        ),
{
    let all = all_matches(text, term);
    let n = all.len();
    let c = matches_below(text, term, from).len();
    let top = text.len() as int + 1;
    lemma_first_match_from(text, term, from);
    match first_match_from(text, term, from) {
        Some(i) => {
            lemma_matches_below_gap(text, term, from, i);
            lemma_match_rank(text, term, i);
            assert(c % n == c) by {
                vstd::arithmetic::div_mod::lemma_small_mod(c, n);
            }
        },
        None => {
            if from <= top {
                lemma_matches_below_gap(text, term, from, top);
            } else {
                lemma_matches_below_gap(text, term, top, from);
            }
            assert(c == n);
            lemma_first_match_from(text, term, 0);
            lemma_matches_below(text, term, top);
            if n > 0 {
                assert(occurs_at(text, term, all[0]));
                let f = first_match_from(text, term, 0).unwrap();
                lemma_matches_below_gap(text, term, 0, f);
                lemma_match_rank(text, term, f);
                assert(matches_below(text, term, 0).len() == 0);
                assert(n % n == 0) by {
                    vstd::arithmetic::div_mod::lemma_mod_self_0(n as int);
                }
            } else {
                if first_match_from(text, term, 0) is Some {
                    lemma_match_rank(text, term, first_match_from(text, term, 0).unwrap());
                }
            }
        },
    }
}

/// Closed form of a run of wraparound searches: the `j`-th finds the
/// occurrence whose index in the rising list is the number of occurrences
/// below `from`, plus `j`, taken modulo the number of occurrences.
pub proof fn lemma_nth_match_index(text: Seq<u8>, term: Seq<u8>, from: int, j: nat)
    requires
        term.len() > 0,
        all_matches(text, term).len() > 0,
    ensures
        nth_match(text, term, from, j) == Some(
            all_matches(text, term)[((matches_below(text, term, from).len() + j) % all_matches(
                text,
                term,
            ).len()) as int],
        ),
    decreases j,
{
    let all = all_matches(text, term);
    let n = all.len() as int;
    let c = matches_below(text, term, from).len() as int;
    lemma_next_match_index(text, term, from);
    if j == 0 {
    } else {
        lemma_nth_match_index(text, term, from, (j - 1) as nat);
        let r = (c + j - 1) % n;
        vstd::arithmetic::div_mod::lemma_mod_bound(c + j - 1, n);
        let o = all[r];
        lemma_matches_below(text, term, text.len() as int + 1);
        lemma_match_rank(text, term, o);
        let below = matches_below(text, term, o).len() as int;
        if below < r {
            assert(all[below] < all[r]);
        } else if r < below {
            assert(all[r] < all[below]);
        }
        assert(matches_below(text, term, o + 1) == matches_below(text, term, o).push(o));
        lemma_next_match_index(text, term, o + 1);
        assert((r + 1) % n == (c + j) % n) by {
            vstd::arithmetic::div_mod::lemma_add_mod_noop_right(1, c + j - 1, n);
        }
    }
}

proof fn lemma_cycle_found(text: Seq<u8>, term: Seq<u8>, from: int, j: nat)
    requires
        term.len() > 0,
        all_matches(text, term).len() > 0,
    ensures
        nth_match(text, term, from, j) is Some,
        occurs_at(text, term, nth_match(text, term, from, j).unwrap()),
{
    let n = all_matches(text, term).len() as int;
    let c = matches_below(text, term, from).len() as int;
    lemma_matches_below(text, term, text.len() as int + 1);
    lemma_nth_match_index(text, term, from, j);
    vstd::arithmetic::div_mod::lemma_mod_bound(c + j, n);
}

proof fn lemma_cycle_distinct(text: Seq<u8>, term: Seq<u8>, from: int, i: nat, j: nat)
    requires
        term.len() > 0,
        i < j < all_matches(text, term).len(),
    ensures
        nth_match(text, term, from, i) != nth_match(text, term, from, j),
{
    let all = all_matches(text, term);
    let n = all.len() as int;
    let c = matches_below(text, term, from).len() as int;
    lemma_matches_below(text, term, text.len() as int + 1);
    lemma_nth_match_index(text, term, from, i);
    lemma_nth_match_index(text, term, from, j);
    let a = (c + i) % n;
    let b = (c + j) % n;
    vstd::arithmetic::div_mod::lemma_mod_bound(c + i, n);
    vstd::arithmetic::div_mod::lemma_mod_bound(c + j, n);
    if a == b {
        vstd::arithmetic::div_mod::lemma_mod_equivalence(c + j, c + i, n);
        vstd::arithmetic::div_mod::lemma_small_mod((j - i) as nat, n as nat);
        assert(false);
    } else if a < b {
        assert(all[a] < all[b]);
    } else {
        assert(all[b] < all[a]);
    }
}

proof fn lemma_cycle_reaches(text: Seq<u8>, term: Seq<u8>, from: int, o: int) -> (j: nat)
    requires
        term.len() > 0,
        occurs_at(text, term, o),
    ensures
        j < all_matches(text, term).len(),
        nth_match(text, term, from, j) == Some(o),
{
    let n = all_matches(text, term).len() as int;
    let c = matches_below(text, term, from).len() as int;
    lemma_match_rank(text, term, o);
    let r = matches_below(text, term, o).len() as int;
    let c0 = c % n;
    vstd::arithmetic::div_mod::lemma_mod_bound(c, n);
    let j: nat = if r >= c0 {
        (r - c0) as nat
    } else {
        (r - c0 + n) as nat
    };
    lemma_nth_match_index(text, term, from, j);
    assert((c + j) % n == r) by {
        vstd::arithmetic::div_mod::lemma_add_mod_noop_right(j as int, c, n);
        vstd::arithmetic::div_mod::lemma_small_mod(r as nat, n as nat);
        vstd::arithmetic::div_mod::lemma_mod_add_multiples_vanish(r, n);
    }
    j
}

proof fn lemma_cycle_repeats(text: Seq<u8>, term: Seq<u8>, from: int, j: nat)
    requires
        term.len() > 0,
        all_matches(text, term).len() > 0,
    ensures
        nth_match(text, term, from, j + all_matches(text, term).len()) == nth_match(
            text,
            term,
            from,
            j,
        ),
{
    let n = all_matches(text, term).len();
    let c = matches_below(text, term, from).len() as int;
    lemma_nth_match_index(text, term, from, j);
    lemma_nth_match_index(text, term, from, j + n);
    vstd::arithmetic::div_mod::lemma_mod_add_multiples_vanish(c + j, n as int);
}

/// Repeated wraparound search cycles through the occurrences.
///
/// Let a term that is not empty occur in the text `n` times, and let a run of
/// searches begin at any offset `from`, each later search starting one past
/// the match before. Then every search finds an occurrence; the first `n`
/// searches find `n` different occurrences; every occurrence is found by one
/// of them; and from the `n`-th search on the run repeats itself.
pub proof fn lemma_wraparound_cycle(text: Seq<u8>, term: Seq<u8>, from: int)
    requires
        term.len() > 0,
        exists|o: int| occurs_at(text, term, o),
    ensures
        all_matches(text, term).len() > 0,
        forall|j: nat|
            {
                &&& (#[trigger] nth_match(text, term, from, j)) is Some
                &&& occurs_at(text, term, nth_match(text, term, from, j).unwrap())
            },
        forall|i: nat, j: nat|
            i < j < all_matches(text, term).len() ==> #[trigger] nth_match(text, term, from, i)
                != #[trigger] nth_match(text, term, from, j),
        forall|o: int|
            occurs_at(text, term, o) ==> exists|j: nat|
                j < all_matches(text, term).len() && #[trigger] nth_match(text, term, from, j)
                    == Some(o),
        forall|j: nat|
            nth_match(text, term, from, j + all_matches(text, term).len()) == #[trigger] nth_match(
                text,
                term,
                from,
                j,
            ),
{
    let w = choose|o: int| occurs_at(text, term, o);
    lemma_match_rank(text, term, w);
    assert forall|j: nat|
        (#[trigger] nth_match(text, term, from, j)) is Some && occurs_at(
            text,
            term,
            nth_match(text, term, from, j).unwrap(),
        ) by {
        lemma_cycle_found(text, term, from, j);
    }
    assert forall|i: nat, j: nat| i < j < all_matches(text, term).len() implies #[trigger] nth_match(
        text,
        term,
        from,
        i,
    ) != #[trigger] nth_match(text, term, from, j) by {
        lemma_cycle_distinct(text, term, from, i, j);
    }
    assert forall|o: int| occurs_at(text, term, o) implies exists|j: nat|
        j < all_matches(text, term).len() && #[trigger] nth_match(text, term, from, j) == Some(
            o,
        ) by {
        let j = lemma_cycle_reaches(text, term, from, o);
    }
    assert forall|j: nat|
        nth_match(text, term, from, j + all_matches(text, term).len()) == #[trigger] nth_match(
            text,
            term,
            from,
            j,
        ) by {
        lemma_cycle_repeats(text, term, from, j);
    }
}

} // verus!
