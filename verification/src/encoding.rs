//! Guessing the character set of a file's bytes.

use vstd::prelude::*;
use vstd::utf8::encode_utf8;

verus! {

/// The escape byte.
pub const ESCAPE: u8 = 0x1b;

/// The byte of the no-break space in the Latin character sets. The detector
/// takes it for plain text.
pub const NO_BREAK_SPACE: u8 = 0xa0;

/// `byte` is one that the detector takes for part of a character outside
/// ASCII: its high bit is set, and it is not the no-break space.
pub open spec fn is_high_byte(byte: u8) -> bool {
    byte >= 0x80 && byte != NO_BREAK_SPACE
}

/// `bytes` hold a high byte.
pub open spec fn holds_high_byte(bytes: Seq<u8>) -> bool {
    exists|i: int| 0 <= i < bytes.len() && is_high_byte(#[trigger] bytes[i])
}

/// The most bytes that the detector is asked about. It counts what it reads
/// in signed numbers of 32 bits, and no count rises by more than one for a
/// byte.
pub const MAX_EXAMINED: usize = 0x7fff_ffff;

/// The detector can be asked about `bytes`: they are no more than
/// [`MAX_EXAMINED`], and they hold no escape byte, or they hold a high byte
/// beside it.
pub open spec fn examinable(bytes: Seq<u8>) -> bool {
    &&& bytes.len() <= MAX_EXAMINED
    &&& (!bytes.contains(ESCAPE) || holds_high_byte(bytes))
}

/// The name of the character set that the detector finds in `bytes`.
pub uninterp spec fn detected_charset(bytes: Seq<u8>) -> Seq<char>;

/// Runs the character set detector over `bytes` and hands back the name it
/// settles on.
///
/// Calls `chardet::detect` and keeps the first part of its result. The
/// contract claims that the name depends on the bytes alone: the detector
/// starts from a fresh state on each call and reads nothing but its input.
/// `requires` leaves out two kinds of input on which the detector can stop
/// the program. The first holds an escape byte and no high byte: on it the
/// detector looks for an escape sequence that names a character set, and
/// where it finds none it ends in a state that it treats as unreachable. A
/// high byte anywhere in the input takes the detector off that path. The
/// second is longer than [`MAX_EXAMINED`]: the detector counts characters in
/// signed numbers of 32 bits, which such an input can overflow.
#[verifier::external_body]
fn detect_charset(bytes: &[u8]) -> (name: String)
    requires
        examinable(bytes@),
    ensures
        name@ == detected_charset(bytes@),
{
    chardet::detect(bytes).0
}

/// Whether `bytes` hold an escape byte.
fn has_escape(bytes: &[u8]) -> (r: bool)
    ensures
        r == bytes@.contains(ESCAPE),
{
    let n: usize = bytes.len();
    let mut i: usize = 0;
    while i < n
        invariant
            n == bytes@.len(),
            0 <= i <= n,
            forall|k: int| 0 <= k < i ==> bytes@[k] != ESCAPE,
        decreases n - i,
    {
        if bytes[i] == ESCAPE {
            return true;
        }
        i = i + 1;
    }
    false
}

/// Whether `bytes` hold a high byte.
fn has_high_byte(bytes: &[u8]) -> (r: bool)
    ensures
        r == holds_high_byte(bytes@),
{
    let n: usize = bytes.len();
    let mut i: usize = 0;
    while i < n
        invariant
            n == bytes@.len(),
            0 <= i <= n,
            forall|k: int| 0 <= k < i ==> !is_high_byte(bytes@[k]),
        decreases n - i,
    {
        if bytes[i] >= 0x80 && bytes[i] != NO_BREAK_SPACE {
            return true;
        }
        i = i + 1;
    }
    false
}

/// Guesses the character set of `text`.
///
/// A text that is longer than [`MAX_EXAMINED`] bytes, or that holds an escape
/// byte and no high byte, is not examined: for it the result is `None`. For
/// every other text the result is the detector's answer.
pub fn detect_encoding(text: &str) -> (r: Option<String>)
    ensures
        r is Some <==> examinable(encode_utf8(text@)),
        r matches Some(name) ==> name@ == detected_charset(encode_utf8(text@)),
{
    let bytes = text.as_bytes();
    if bytes.len() <= MAX_EXAMINED && (!has_escape(bytes) || has_high_byte(bytes)) {
        Some(detect_charset(bytes))
    } else {
        None
    }
}

} // verus!
