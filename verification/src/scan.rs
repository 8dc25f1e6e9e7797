//! Character classes and the scanners over them: each scanner finds the end
//! of the longest run of its class starting at a position, and keyword
//! matching compares a literal against a span of the input.

use vstd::prelude::*;
use crate::cells::is_hex_digit;

verus! {

/// Horizontal whitespace: the space and the tab character.
pub open spec fn is_space(c: char) -> bool {
    c == ' ' || c == '\t'
}

/// Whether a character has the Unicode `Alphabetic` property.
pub uninterp spec fn is_alpha(c: char) -> bool;

/// An ASCII letter.
pub open spec fn is_ascii_letter(c: char) -> bool {
    (97 <= c as u32 && c as u32 <= 122) || (65 <= c as u32 && c as u32 <= 90)
}

/// A character that may stand in a comment: anything but a line terminator.
pub open spec fn is_text(c: char) -> bool {
    c != '\n' && c != '\r'
}

pub open spec fn space_pred() -> spec_fn(char) -> bool {
    |c: char| is_space(c)
}

pub open spec fn hex_pred() -> spec_fn(char) -> bool {
    |c: char| is_hex_digit(c)
}

pub open spec fn alpha_pred() -> spec_fn(char) -> bool {
    |c: char| is_alpha(c)
}

pub open spec fn ascii_letter_pred() -> spec_fn(char) -> bool {
    |c: char| is_ascii_letter(c)
}

pub open spec fn text_pred() -> spec_fn(char) -> bool {
    |c: char| is_text(c)
}

/// The end of the run of characters of class `pred` that starts at `p`: the
/// first position at or after `p` that is out of the class, or the end of
/// the input.
pub open spec fn scan_end(s: Seq<char>, p: int, pred: spec_fn(char) -> bool) -> int
    decreases s.len() - p,
{
    if p < 0 || p >= s.len() {
        p
    } else if pred(s[p]) {
        scan_end(s, p + 1, pred)
    } else {
        p
    }
}

/// What `scan_end` finds: a position no earlier than `p`, no later than the
/// end, with the whole run in the class and the character after it, if any,
/// out of it.
pub proof fn lemma_scan_end(s: Seq<char>, p: int, pred: spec_fn(char) -> bool)
    requires
        0 <= p <= s.len(),
    ensures
        p <= scan_end(s, p, pred) <= s.len(),
        forall|i: int| p <= i < scan_end(s, p, pred) ==> pred(s[i]),
        scan_end(s, p, pred) < s.len() ==> !pred(s[scan_end(s, p, pred)]),
    decreases s.len() - p,
{
    if p < s.len() && pred(s[p]) {
        lemma_scan_end(s, p + 1, pred);
    }
}


/// The scanner's result is determined by its characterization: a span in
/// the class, delimited by the end of input or a character out of it.
pub proof fn lemma_scan_end_is(s: Seq<char>, p: int, e: int, pred: spec_fn(char) -> bool)
    requires
        0 <= p <= e <= s.len(),
        forall|i: int| p <= i < e ==> pred(#[trigger] s[i]),
        e < s.len() ==> !pred(s[e]),
    ensures
        scan_end(s, p, pred) == e,
    decreases e - p,
{
    if p < e {
        lemma_scan_end_is(s, p + 1, e, pred);
    }
}

/// Whether the character at `pos` is horizontal whitespace.
pub fn space_at(i: &str, pos: usize) -> (r: bool)
    requires
        pos < i@.len(),
    ensures
        r == is_space(i@[pos as int]),
{
    let c = i.get_char(pos);
    c == ' ' || c == '\t'
}

/// Relies on `nom_unicode::is_alphabetic`: whether a character has the
/// Unicode `Alphabetic` property. The result depends on the character alone.
#[verifier::external_body]
fn alpha_char(c: char) -> (r: bool)
    ensures
        r == is_alpha(c),
{
    nom_unicode::is_alphabetic(c)
}

/// Whether the character at `pos` is a Unicode letter.
pub fn alpha_at(i: &str, pos: usize) -> (r: bool)
    requires
        pos < i@.len(),
    ensures
        r == is_alpha(i@[pos as int]),
{
    alpha_char(i.get_char(pos))
}

/// Whether the character at `pos` is an ASCII letter.
pub fn ascii_letter_at(i: &str, pos: usize) -> (r: bool)
    requires
        pos < i@.len(),
    ensures
        r == is_ascii_letter(i@[pos as int]),
{
    let u = i.get_char(pos) as u32;
    (97 <= u && u <= 122) || (65 <= u && u <= 90)
}

/// Whether the character at `pos` is a dot digit.
pub fn hex_at(i: &str, pos: usize) -> (r: bool)
    requires
        pos < i@.len(),
    ensures
        r == is_hex_digit(i@[pos as int]),
{
    crate::cells::char_to_dot(i.get_char(pos)).is_some()
}

/// Whether the character at `pos` may stand in a comment.
pub fn text_at(i: &str, pos: usize) -> (r: bool)
    requires
        pos < i@.len(),
    ensures
        r == is_text(i@[pos as int]),
{
    let c = i.get_char(pos);
    c != '\n' && c != '\r'
}

/// The end of the whitespace run starting at `from`.
pub fn scan_space(i: &str, from: usize) -> (r: usize)
    requires
        from <= i@.len(),
    ensures
        r == scan_end(i@, from as int, space_pred()),
        from <= r <= i@.len(),
{
    let len = i.unicode_len();
    let mut pos = from;
    while pos < len && space_at(i, pos)
        invariant
            from <= pos <= len,
            len == i@.len(),
            scan_end(i@, from as int, space_pred()) == scan_end(i@, pos as int, space_pred()),
        decreases len - pos,
    {
        pos = pos + 1;
    }
    pos
}

/// The end of the Unicode-letter run starting at `from`.
pub fn scan_alpha(i: &str, from: usize) -> (r: usize)
    requires
        from <= i@.len(),
    ensures
        r == scan_end(i@, from as int, alpha_pred()),
        from <= r <= i@.len(),
{
    let len = i.unicode_len();
    let mut pos = from;
    while pos < len && alpha_at(i, pos)
        invariant
            from <= pos <= len,
            len == i@.len(),
            scan_end(i@, from as int, alpha_pred()) == scan_end(i@, pos as int, alpha_pred()),
        decreases len - pos,
    {
        pos = pos + 1;
    }
    pos
}

/// The end of the ASCII-letter run starting at `from`.
pub fn scan_ascii_letters(i: &str, from: usize) -> (r: usize)
    requires
        from <= i@.len(),
    ensures
        r == scan_end(i@, from as int, ascii_letter_pred()),
        from <= r <= i@.len(),
{
    let len = i.unicode_len();
    let mut pos = from;
    while pos < len && ascii_letter_at(i, pos)
        invariant
            from <= pos <= len,
            len == i@.len(),
            scan_end(i@, from as int, ascii_letter_pred()) == scan_end(
                i@,
                pos as int,
                ascii_letter_pred(),
            ),
        decreases len - pos,
    {
        pos = pos + 1;
    }
    pos
}

/// The end of the dot-digit run starting at `from`.
pub fn scan_hex(i: &str, from: usize) -> (r: usize)
    requires
        from <= i@.len(),
    ensures
        r == scan_end(i@, from as int, hex_pred()),
        from <= r <= i@.len(),
{
    let len = i.unicode_len();
    let mut pos = from;
    while pos < len && hex_at(i, pos)
        invariant
            from <= pos <= len,
            len == i@.len(),
            scan_end(i@, from as int, hex_pred()) == scan_end(i@, pos as int, hex_pred()),
        decreases len - pos,
    {
        pos = pos + 1;
    }
    pos
}

/// The end of the comment-text run starting at `from`.
pub fn scan_text(i: &str, from: usize) -> (r: usize)
    requires
        from <= i@.len(),
    ensures
        r == scan_end(i@, from as int, text_pred()),
        from <= r <= i@.len(),
{
    let len = i.unicode_len();
    let mut pos = from;
    while pos < len && text_at(i, pos)
        invariant
            from <= pos <= len,
            len == i@.len(),
            scan_end(i@, from as int, text_pred()) == scan_end(i@, pos as int, text_pred()),
        decreases len - pos,
    {
        pos = pos + 1;
    }
    pos
}

/// Whether the characters of `kw` stand at `p` in `s`.
pub open spec fn match_at(s: Seq<char>, p: int, kw: Seq<char>) -> bool {
    0 <= p && p + kw.len() <= s.len() && s.subrange(p, p + kw.len()) == kw
}

/// Whether the keyword `kw` stands at `pos` in `i`.
pub fn tag_at(i: &str, pos: usize, kw: &str) -> (r: bool)
    requires
        pos <= i@.len(),
    ensures
        r == match_at(i@, pos as int, kw@),
{
    let len = i.unicode_len();
    let klen = kw.unicode_len();
    if klen > len - pos {
        assert(!match_at(i@, pos as int, kw@));
        return false;
    }
    let mut j: usize = 0;
    while j < klen
        invariant
            0 <= j <= klen,
            len == i@.len(),
            pos + klen <= len,
            klen == kw@.len(),
            forall|t: int| 0 <= t < j ==> i@[pos + t] == kw@[t],
        decreases klen - j,
    {
        if i.get_char(pos + j) != kw.get_char(j) {
            proof {
                assert(i@.subrange(pos as int, pos + klen)[j as int] == i@[pos + j]);
            }
            return false;
        }
        j = j + 1;
    }
    proof {
        assert(i@.subrange(pos as int, pos + klen) =~= kw@);
    }
    true
}

} // verus!
