//! The coordinate mapper and the match locator: from a text, a search term, a
//! starting offset and a wrap width to the next match and its wrapped
//! coordinates.

use crate::layout::{locate, place, place_at, Match, Placement};
use crate::search::{
    find_in, first_match_from, lemma_first_match_from, lemma_first_match_from_tail, occurs_at,
};
use vstd::prelude::*;
use crate::text::same_text;
use vstd::string::StringExecFns;
use vstd::utf8::encode_utf8;

verus! {

/// Finds the next place where `find_str` stands in `text` and maps it to
/// wrapped coordinates.
///
/// The search runs from `curr_start_idx` to the end of the text and, when it
/// finds nothing there, from the start of the text. The result holds, in this
/// order, the match's byte offset, its visual row and column at wrap width
/// `ui_width`, the number of its paragraph and its offset within the
/// paragraph. It is `None` when the term is empty or stands nowhere in the
/// text.
pub fn get_next_word_idx(text: &str, find_str: String, curr_start_idx: usize, ui_width: usize) -> (r:
    Option<(usize, usize, usize, usize, usize)>)
    requires
        ui_width > 0,
    ensures
        match r {
            Some(found) => locate(
                encode_utf8(text@),
                encode_utf8(find_str@),
                curr_start_idx as int,
                ui_width as int,
            ) == Some(
                (Placement {
                    offset: found.0 as int,
                    row: found.1 as int,
                    column: found.2 as int,
                    paragraph: found.3 as int,
                    paragraph_offset: found.4 as int,
                }),
            ),
            None => locate(
                encode_utf8(text@),
                encode_utf8(find_str@),
                curr_start_idx as int,
                ui_width as int,
            ) is None,
        },
{
    let bytes = text.as_bytes();
    let term = find_str.as_str().as_bytes();
    if term.len() == 0 {
        return None;
    }
    let total: usize = bytes.len();
    let from: usize = if curr_start_idx <= total {
        curr_start_idx
    } else {
        total
    };
    proof {
        lemma_first_match_from(bytes@, term@, curr_start_idx as int);
        lemma_first_match_from(bytes@, term@, from as int);
        lemma_first_match_from_tail(bytes@, term@, from as int);
        lemma_first_match_from_tail(bytes@, term@, 0);
        assert(bytes@.subrange(0, total as int) =~= bytes@);
        if from < curr_start_idx {
            assert(first_match_from(bytes@, term@, from as int) is None) by {
                if first_match_from(bytes@, term@, from as int) is Some {
                    let i = first_match_from(bytes@, term@, from as int).unwrap();
                    assert(occurs_at(bytes@, term@, i));
                }
            }
        }
    }
    let ahead = find_in(bytes, term, from, total);
    let found = match ahead {
        Some(at) => Some(at),
        None => find_in(bytes, term, 0, total),
    };
    match found {
        Some(at) => {
            let m = place_at(bytes, term, at, ui_width);
            Some((m.offset, m.row, m.column, m.paragraph, m.paragraph_offset))
        },
        None => None,
    }
}

/// Locates the next match of `term` in `text` from `from_offset` on, with
/// wraparound, at wrap width `wrap_width`.
///
/// `None` says that the term is empty or stands nowhere in the text.
pub fn locate_next(text: &str, term: &str, from_offset: usize, wrap_width: usize) -> (r: Option<
    Match,
>)
    requires
        wrap_width > 0,
    ensures
        match r {
            Some(m) => locate(
                encode_utf8(text@),
                encode_utf8(term@),
                from_offset as int,
                wrap_width as int,
            ) == Some(m@),
            None => locate(
                encode_utf8(text@),
                encode_utf8(term@),
                from_offset as int,
                wrap_width as int,
            ) is None,
        },
{
    match get_next_word_idx(text, term.to_owned(), from_offset, wrap_width) {
        Some(found) => Some(
            Match {
                offset: found.0,
                row: found.1,
                column: found.2,
                paragraph: found.3,
                paragraph_offset: found.4,
            },
        ),
        None => None,
    }
}

/// Rows do not fall along a paragraph: of two matches in one paragraph, the
/// one at the higher offset lies in the same row or a later one.
pub proof fn lemma_row_monotone(
    text: Seq<u8>,
    term: Seq<u8>,
    first: int,
    second: int,
    width: int,
)
    requires
        width > 0,
        occurs_at(text, term, first),
        occurs_at(text, term, second),
        first <= second,
        place(text, term, first, width).paragraph == place(text, term, second, width).paragraph,
    ensures
        place(text, term, first, width).row <= place(text, term, second, width).row,
{
}

/// The name of the operating system `os` as it is shown, and in brackets the
/// line ending that it uses. A system that is not known is shown under its
/// own name, with the line ending LF.
pub open spec fn line_ending_format(os: Seq<char>) -> Seq<char> {
    let name = if os == "windows"@ {
        "Windows"@
    } else if os == "macos"@ {
        "macOS"@
    } else if os == "linux"@ {
        "Linux"@
    } else {
        os
    };
    let ending = if os == "windows"@ {
        "CRLF"@
    } else if os == "macos"@ {
        "CR"@
    } else {
        "LF"@
    };
    name + " ("@ + ending + ")"@
}

/// Names the operating system `os` and its line ending for the status bar.
pub fn get_line_ending_format(os: &str) -> (r: String)
    ensures
        r@ == line_ending_format(os@),
{
    let windows = same_text(os, "windows");
    let macos = same_text(os, "macos");
    let linux = same_text(os, "linux");
    let name: &str = if windows {
        "Windows"
    } else if macos {
        "macOS"
    } else if linux {
        "Linux"
    } else {
        os
    };
    let ending: &str = if windows {
        "CRLF"
    } else if macos {
        "CR"
    } else {
        "LF"
    };
    let mut r = String::from_str(name);
    r.append(" (");
    r.append(ending);
    r.append(")");
    r
}

/// The status bar's text for a document whose caret stands at its start:
/// caret position, zoom, line ending and character set.
pub open spec fn status_text(line_ending: Seq<char>, encoding: Seq<char>) -> Seq<char> {
    "Ln 1 Col 1 | 100% | "@ + line_ending + " | "@ + encoding
}

/// Writes the status bar's text for a document whose caret stands at its
/// start.
pub fn status_line(line_ending: &str, encoding: &str) -> (r: String)
    ensures
        r@ == status_text(line_ending@, encoding@),
{
    let mut r = String::from_str("Ln 1 Col 1 | 100% | ");
    r.append(line_ending);
    r.append(" | ");
    r.append(encoding);
    r
}

/// The notice for a term that stands nowhere in the text.
pub open spec fn not_found_text(term: Seq<char>) -> Seq<char> {
    "Cannot find \""@ + term + "\""@
}

/// Writes the notice for a term that stands nowhere in the text.
pub fn not_found_message(term: &str) -> (r: String)
    ensures
        r@ == not_found_text(term@),
{
    let mut r = String::from_str("Cannot find \"");
    r.append(term);
    r.append("\"");
    r
}

} // verus!
