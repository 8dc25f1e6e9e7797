//! The grammar of one Braille table-definition file: dot patterns, prefix
//! keywords, the seven rule forms, line classification and the whole-table
//! parser, each with a specification-level grammar function that its
//! executable parser is proved against.

use vstd::prelude::*;
use crate::cells::BrailleCell;
use crate::cells::is_hex_digit;
use crate::cells::run_cell;
use crate::cells::run_bits;
use crate::cells::char_to_dot;
use crate::cells::BrailleDot;
use crate::scan::scan_end;
use crate::scan::lemma_scan_end;
use crate::scan::lemma_scan_end_is;
use crate::scan::match_at;
use crate::scan::space_pred;
use crate::scan::hex_pred;
use crate::scan::alpha_pred;
use crate::scan::ascii_letter_pred;
use crate::scan::text_pred;
use crate::scan::scan_space;
use crate::scan::scan_hex;
use crate::scan::scan_alpha;
use crate::scan::scan_ascii_letters;
use crate::scan::scan_text;
use crate::scan::tag_at;

verus! {

/// A modifier keyword that may precede the display and multind rules.
#[derive(Clone, Copy, PartialEq, Eq, Structural, Debug, Hash)]
pub enum Prefix {
    Noback,
    Nofor,
    Nocross,
}

/// A set of prefix modifiers: one flag per modifier keyword.
#[derive(Clone, Copy, PartialEq, Eq, Structural, Debug)]
pub struct Prefixes {
    pub noback: bool,
    pub nofor: bool,
    pub nocross: bool,
}

impl Prefixes {
    /// Whether a modifier is in the set.
    pub open spec fn spec_has(self, p: Prefix) -> bool {
        match p {
            Prefix::Noback => self.noback,
            Prefix::Nofor => self.nofor,
            Prefix::Nocross => self.nocross,
        }
    }

    pub open spec fn spec_empty() -> Prefixes {
        Prefixes { noback: false, nofor: false, nocross: false }
    }

    pub fn empty() -> (r: Prefixes)
        ensures
            r == Self::spec_empty(),
    {
        Prefixes { noback: false, nofor: false, nocross: false }
    }

    /// Whether a modifier is in the set.
    pub fn has(self, p: Prefix) -> (r: bool)
        ensures
            r == self.spec_has(p),
    {
        match p {
            Prefix::Noback => self.noback,
            Prefix::Nofor => self.nofor,
            Prefix::Nocross => self.nocross,
        }
    }

    /// The set with one more modifier.
    pub fn with(self, p: Prefix) -> (r: Prefixes)
        ensures
            forall|q: Prefix| r.spec_has(q) == (q == p || self.spec_has(q)),
    {
        let r = match p {
            Prefix::Noback => Prefixes { noback: true, ..self },
            Prefix::Nofor => Prefixes { nofor: true, ..self },
            Prefix::Nocross => Prefixes { nocross: true, ..self },
        };
        proof {
            assert forall|q: Prefix| r.spec_has(q) == (q == p || self.spec_has(q)) by {
                match q {
                    Prefix::Noback => {},
                    Prefix::Nofor => {},
                    Prefix::Nocross => {},
                }
            }
        }
        r
    }
}

/// Why a parse failed.
#[derive(Clone, Copy, PartialEq, Eq, Structural, Debug)]
pub enum ErrorKind {
    /// A character outside `0`-`9`, `a`-`f` where a dot digit was expected.
    InvalidHexDigit,
    /// A dash-delimited run with zero dot digits, or a dot pattern with zero
    /// runs.
    EmptyDotGroup,
    /// No rule keyword matched.
    UnrecognizedKeyword,
    /// A keyword matched, but the required whitespace or a following word
    /// was absent.
    MissingArgument,
    /// A line was otherwise well formed but not terminated.
    MissingLineTerminator,
    /// A physical line matched none of rule line, comment line, empty line.
    UnrecognizedLine,
}

/// A parse failure: the position, in characters within the input that was
/// handed to the failing function, at which the parser gave up, and why.
#[derive(Clone, Copy, PartialEq, Eq, Structural, Debug)]
pub struct ParseError {
    pub pos: usize,
    pub kind: ErrorKind,
}

/// What a specification-level parser yields: the position just after what
/// was consumed together with the parsed value, or the failure position and
/// its reason.
pub type SpecParsed<T> = Result<(int, T), (int, ErrorKind)>;

/// The end of a line terminator standing at `p`: a newline, or a carriage
/// return followed by a newline.
pub open spec fn line_end_at(s: Seq<char>, p: int) -> Option<int> {
    if 0 <= p < s.len() && s[p] == '\n' {
        Some(p + 1)
    } else if 0 <= p && p + 1 < s.len() && s[p] == '\r' && s[p + 1] == '\n' {
        Some(p + 2)
    } else {
        None
    }
}

/// The dot-pattern grammar at `p`: dash-separated runs of dot digits, one
/// cell per run, each cell the union of the dots its digits decode to. A
/// run with no digit fails; a missing or empty run reports an empty dot
/// group, a foreign character where a digit was expected an invalid digit.
pub open spec fn spec_dots(s: Seq<char>, p: int) -> SpecParsed<Seq<BrailleCell>>
    decreases s.len() - p,
{
    let e = scan_end(s, p, hex_pred());
    if e <= p {
        if p >= s.len() || s[p] == '-' {
            Err((p, ErrorKind::EmptyDotGroup))
        } else {
            Err((p, ErrorKind::InvalidHexDigit))
        }
    } else {
        let cell = run_cell(s.subrange(p, e));
        if e < s.len() && s[e] == '-' {
            match spec_dots(s, e + 1) {
                Ok((q, cells)) => Ok((q, seq![cell] + cells)),
                Err(err) => Err(err),
            }
        } else {
            Ok((e, seq![cell]))
        }
    }
}

/// One run of dot digits starting at `pos`, decoded to its cell.
fn group_at(i: &str, pos: usize) -> (r: Result<(usize, BrailleCell), ParseError>)
    requires
        pos <= i@.len(),
    ensures
        match r {
            Ok((q, cell)) => {
                &&& q == scan_end(i@, pos as int, hex_pred())
                &&& pos < q <= i@.len()
                &&& cell == run_cell(i@.subrange(pos as int, q as int))
            },
            Err(e) => {
                &&& scan_end(i@, pos as int, hex_pred()) == pos
                &&& e.pos == pos
                &&& e.kind == (if pos >= i@.len() || i@[pos as int] == '-' {
                    ErrorKind::EmptyDotGroup
                } else {
                    ErrorKind::InvalidHexDigit
                })
            },
        },
{
    proof {
        lemma_scan_end(i@, pos as int, hex_pred());
    }
    let e = scan_hex(i, pos);
    if e == pos {
        let len = i.unicode_len();
        if pos >= len || i.get_char(pos) == '-' {
            Err(ParseError { pos, kind: ErrorKind::EmptyDotGroup })
        } else {
            Err(ParseError { pos, kind: ErrorKind::InvalidHexDigit })
        }
    } else {
        let mut cell = BrailleCell::empty();
        let mut k = pos;
        while k < e
            invariant
                pos <= k <= e <= i@.len(),
                e == scan_end(i@, pos as int, hex_pred()),
                forall|t: int| pos <= t < e ==> is_hex_digit(i@[t]),
                cell.bits == run_bits(i@.subrange(pos as int, k as int)),
            decreases e - k,
        {
            let c = i.get_char(k);
            let d = match char_to_dot(c) {
                Some(d) => d,
                None => {
                    proof {
                        assert(false);
                    }
                    BrailleDot::DOT0
                },
            };
            let next = cell.with(d);
            proof {
                let sub1 = i@.subrange(pos as int, k + 1);
                assert(sub1.drop_last() =~= i@.subrange(pos as int, k as int));
                assert(sub1.last() == i@[k as int]);
            }
            cell = next;
            k = k + 1;
        }
        Ok((e, cell))
    }
}

/// A dot pattern starting at `pos`.
fn dots_at(i: &str, pos: usize) -> (r: Result<(usize, Vec<BrailleCell>), ParseError>)
    requires
        pos <= i@.len(),
    ensures
        match r {
            Ok((q, cells)) => {
                &&& spec_dots(i@, pos as int) == Ok::<_, (int, ErrorKind)>((q as int, cells@))
                &&& pos < q <= i@.len()
            },
            Err(e) => spec_dots(i@, pos as int) == Err::<(int, Seq<BrailleCell>), _>(
                (e.pos as int, e.kind),
            ),
        },
    decreases i@.len() - pos,
{
    match group_at(i, pos) {
        Err(e) => Err(e),
        Ok((q, cell)) => {
            let len = i.unicode_len();
            if q < len && i.get_char(q) == '-' {
                match dots_at(i, q + 1) {
                    Err(e) => Err(e),
                    Ok((r, mut cells)) => {
                        let ghost tail = cells@;
                        cells.insert(0, cell);
                        proof {
                            assert(cells@ =~= seq![cell] + tail);
                        }
                        Ok((r, cells))
                    },
                }
            } else {
                let mut v: Vec<BrailleCell> = Vec::new();
                v.push(cell);
                proof {
                    assert(v@ =~= seq![cell]);
                }
                Ok((q, v))
            }
        },
    }
}


/// The mathematical view of a parsed rule: its texts as character
/// sequences, its dot pattern as a sequence of cells.
#[verifier::ext_equal]
pub ghost enum SpecRule {
    Include { filename: Seq<char> },
    Undefined { dots: Seq<BrailleCell> },
    Display { chars: Seq<char>, dots: Seq<BrailleCell>, prefixes: Prefixes },
    Multind { chars: Seq<char>, dots: Seq<BrailleCell>, prefixes: Prefixes },
    Largesign { word: Seq<char>, dots: Seq<BrailleCell> },
    Syllable { word: Seq<char>, dots: Seq<BrailleCell> },
    Joinword { word: Seq<char>, dots: Seq<BrailleCell> },
}

/// The mathematical view of one parsed line.
#[verifier::ext_equal]
pub ghost enum SpecLine {
    Empty,
    Comment { comment: Seq<char> },
    Rule { rule: SpecRule, comment: Seq<char> },
}

/// One parsed rule, owning its texts.
#[derive(PartialEq, Eq, Debug, Clone)]
pub enum Rule {
    Include { filename: String },
    Undefined { dots: Vec<BrailleCell> },
    Display { chars: String, dots: Vec<BrailleCell>, prefixes: Prefixes },
    Multind { chars: String, dots: Vec<BrailleCell>, prefixes: Prefixes },
    Largesign { word: String, dots: Vec<BrailleCell> },
    Syllable { word: String, dots: Vec<BrailleCell> },
    Joinword { word: String, dots: Vec<BrailleCell> },
}

impl View for Rule {
    type V = SpecRule;

    open spec fn view(&self) -> SpecRule {
        match self {
            Rule::Include { filename } => SpecRule::Include { filename: filename@ },
            Rule::Undefined { dots } => SpecRule::Undefined { dots: dots@ },
            Rule::Display { chars, dots, prefixes } => SpecRule::Display {
                chars: chars@,
                dots: dots@,
                prefixes: *prefixes,
            },
            Rule::Multind { chars, dots, prefixes } => SpecRule::Multind {
                chars: chars@,
                dots: dots@,
                prefixes: *prefixes,
            },
            Rule::Largesign { word, dots } => SpecRule::Largesign { word: word@, dots: dots@ },
            Rule::Syllable { word, dots } => SpecRule::Syllable { word: word@, dots: dots@ },
            Rule::Joinword { word, dots } => SpecRule::Joinword { word: word@, dots: dots@ },
        }
    }
}

/// One classified line of a table file.
#[derive(PartialEq, Eq, Debug, Clone)]
pub enum Line {
    Empty,
    Comment { comment: String },
    Rule { rule: Rule, comment: String },
}

impl View for Line {
    type V = SpecLine;

    open spec fn view(&self) -> SpecLine {
        match self {
            Line::Empty => SpecLine::Empty,
            Line::Comment { comment } => SpecLine::Comment { comment: comment@ },
            Line::Rule { rule, comment } => SpecLine::Rule { rule: rule@, comment: comment@ },
        }
    }
}

/// A keyword at `p` followed by required whitespace, both consumed.
pub open spec fn spec_token(s: Seq<char>, p: int, kw: Seq<char>) -> Option<int> {
    if match_at(s, p, kw) {
        let a = p + kw.len();
        let q = scan_end(s, a, space_pred());
        if q > a {
            Some(q)
        } else {
            None
        }
    } else {
        None
    }
}

/// A keyword at `pos` followed by required whitespace.
fn token_at(i: &str, pos: usize, kw: &str) -> (r: Option<usize>)
    requires
        pos <= i@.len(),
    ensures
        match r {
            Some(q) => spec_token(i@, pos as int, kw@) == Some(q as int) && pos <= q <= i@.len(),
            None => spec_token(i@, pos as int, kw@) is None,
        },
{
    let ilen = i.unicode_len();
    if tag_at(i, pos, kw) {
        let a = pos + kw.unicode_len();
        let q = scan_space(i, a);
        if q > a {
            Some(q)
        } else {
            None
        }
    } else {
        None
    }
}

/// The prefix grammar at `p`. It always yields: the longer combined forms
/// are tried before the single keywords, and when nothing matches it
/// consumes nothing and yields the empty set. `noback` and `nofor` never
/// stand together in the result.
pub open spec fn spec_prefixes(s: Seq<char>, p: int) -> (int, Prefixes) {
    if let Some(q) = spec_token_pair(s, p, "noback"@, "nocross"@) {
        (q, Prefixes { noback: true, nofor: false, nocross: true })
    } else if let Some(q) = spec_token_pair(s, p, "nofor"@, "nocross"@) {
        (q, Prefixes { noback: false, nofor: true, nocross: true })
    } else if let Some(q) = spec_token(s, p, "nofor"@) {
        (q, Prefixes { noback: false, nofor: true, nocross: false })
    } else if let Some(q) = spec_token(s, p, "noback"@) {
        (q, Prefixes { noback: true, nofor: false, nocross: false })
    } else if let Some(q) = spec_token(s, p, "nocross"@) {
        (q, Prefixes { noback: false, nofor: false, nocross: true })
    } else {
        (p, Prefixes::spec_empty())
    }
}

/// Two keywords in a row, each followed by required whitespace.
pub open spec fn spec_token_pair(s: Seq<char>, p: int, kw1: Seq<char>, kw2: Seq<char>) -> Option<
    int,
> {
    match spec_token(s, p, kw1) {
        Some(q) => spec_token(s, q, kw2),
        None => None,
    }
}

/// The prefix parser: total, and ordered as the grammar lists its
/// alternatives.
fn prefixes_at(i: &str, pos: usize) -> (r: (usize, Prefixes))
    requires
        pos <= i@.len(),
    ensures
        spec_prefixes(i@, pos as int) == (r.0 as int, r.1),
        pos <= r.0 <= i@.len(),
        !(r.1.noback && r.1.nofor),
{
    let nb = token_at(i, pos, "noback");
    if let Some(q) = nb {
        if let Some(e) = token_at(i, q, "nocross") {
            return (e, Prefixes { noback: true, nofor: false, nocross: true });
        }
    }
    let nf = token_at(i, pos, "nofor");
    if let Some(q) = nf {
        if let Some(e) = token_at(i, q, "nocross") {
            return (e, Prefixes { noback: false, nofor: true, nocross: true });
        }
    }
    if let Some(q) = nf {
        return (q, Prefixes { noback: false, nofor: true, nocross: false });
    }
    if let Some(q) = nb {
        return (q, Prefixes { noback: true, nofor: false, nocross: false });
    }
    if let Some(q) = token_at(i, pos, "nocross") {
        return (q, Prefixes { noback: false, nofor: false, nocross: true });
    }
    (pos, Prefixes { noback: false, nofor: false, nocross: false })
}

/// A word of one or more Unicode letters at `p`.
pub open spec fn spec_word(s: Seq<char>, p: int) -> SpecParsed<Seq<char>> {
    let e = scan_end(s, p, alpha_pred());
    if e > p {
        Ok((e, s.subrange(p, e)))
    } else {
        Err((p, ErrorKind::MissingArgument))
    }
}

/// A word of one or more ASCII letters at `p`.
pub open spec fn spec_ascii_word(s: Seq<char>, p: int) -> SpecParsed<Seq<char>> {
    let e = scan_end(s, p, ascii_letter_pred());
    if e > p {
        Ok((e, s.subrange(p, e)))
    } else {
        Err((p, ErrorKind::MissingArgument))
    }
}

/// A Unicode-letter word starting at `pos`.
fn word_at(i: &str, pos: usize) -> (r: Result<(usize, String), ParseError>)
    requires
        pos <= i@.len(),
    ensures
        match r {
            Ok((q, w)) => spec_word(i@, pos as int) == Ok::<_, (int, ErrorKind)>((q as int, w@))
                && pos < q <= i@.len(),
            Err(e) => spec_word(i@, pos as int) == Err::<(int, Seq<char>), _>(
                (e.pos as int, e.kind),
            ),
        },
{
    let e = scan_alpha(i, pos);
    if e > pos {
        let w = i.substring_char(pos, e).to_owned();
        Ok((e, w))
    } else {
        Err(ParseError { pos, kind: ErrorKind::MissingArgument })
    }
}

/// An ASCII-letter word starting at `pos`.
fn ascii_word_at(i: &str, pos: usize) -> (r: Result<(usize, String), ParseError>)
    requires
        pos <= i@.len(),
    ensures
        match r {
            Ok((q, w)) => spec_ascii_word(i@, pos as int) == Ok::<_, (int, ErrorKind)>(
                (q as int, w@),
            ) && pos < q <= i@.len(),
            Err(e) => spec_ascii_word(i@, pos as int) == Err::<(int, Seq<char>), _>(
                (e.pos as int, e.kind),
            ),
        },
{
    let e = scan_ascii_letters(i, pos);
    if e > pos {
        let w = i.substring_char(pos, e).to_owned();
        Ok((e, w))
    } else {
        Err(ParseError { pos, kind: ErrorKind::MissingArgument })
    }
}

/// A rule keyword at `p` followed by required whitespace. A keyword that
/// does not match reports an unrecognized keyword, which is what lets the
/// next rule form be tried; a keyword without its whitespace is a missing
/// argument.
pub open spec fn spec_rule_head(s: Seq<char>, p: int, kw: Seq<char>) -> Result<
    int,
    (int, ErrorKind),
> {
    if !match_at(s, p, kw) {
        Err((p, ErrorKind::UnrecognizedKeyword))
    } else {
        let a = p + kw.len();
        let q = scan_end(s, a, space_pred());
        if q > a {
            Ok(q)
        } else {
            Err((a, ErrorKind::MissingArgument))
        }
    }
}

/// A rule keyword at `pos` followed by required whitespace.
fn rule_head_at(i: &str, pos: usize, kw: &str) -> (r: Result<usize, ParseError>)
    requires
        pos <= i@.len(),
    ensures
        match r {
            Ok(q) => spec_rule_head(i@, pos as int, kw@) == Ok::<_, (int, ErrorKind)>(q as int)
                && pos <= q <= i@.len(),
            Err(e) => spec_rule_head(i@, pos as int, kw@) == Err::<int, _>(
                (e.pos as int, e.kind),
            ),
        },
{
    let ilen = i.unicode_len();
    if !tag_at(i, pos, kw) {
        return Err(ParseError { pos, kind: ErrorKind::UnrecognizedKeyword });
    }
    let a = pos + kw.unicode_len();
    let q = scan_space(i, a);
    if q > a {
        Ok(q)
    } else {
        Err(ParseError { pos: a, kind: ErrorKind::MissingArgument })
    }
}

/// A Unicode word, required whitespace, then a dot pattern.
pub open spec fn spec_word_dots(s: Seq<char>, p: int) -> SpecParsed<(Seq<char>, Seq<BrailleCell>)> {
    match spec_word(s, p) {
        Err(e) => Err(e),
        Ok((w_end, w)) => {
            let q = scan_end(s, w_end, space_pred());
            if q <= w_end {
                Err((w_end, ErrorKind::MissingArgument))
            } else {
                match spec_dots(s, q) {
                    Err(e) => Err(e),
                    Ok((d_end, cells)) => Ok((d_end, (w, cells))),
                }
            }
        },
    }
}

/// A Unicode word, required whitespace, then a dot pattern, at `pos`.
fn word_dots_at(i: &str, pos: usize) -> (r: Result<(usize, String, Vec<BrailleCell>), ParseError>)
    requires
        pos <= i@.len(),
    ensures
        match r {
            Ok((q, w, cells)) => spec_word_dots(i@, pos as int) == Ok::<_, (int, ErrorKind)>(
                (q as int, (w@, cells@)),
            ) && pos < q <= i@.len(),
            Err(e) => spec_word_dots(i@, pos as int) == Err::<(int, (Seq<char>, Seq<BrailleCell>)), _>(
                (e.pos as int, e.kind),
            ),
        },
{
    match word_at(i, pos) {
        Err(e) => Err(e),
        Ok((w_end, w)) => {
            let q = scan_space(i, w_end);
            if q <= w_end {
                Err(ParseError { pos: w_end, kind: ErrorKind::MissingArgument })
            } else {
                match dots_at(i, q) {
                    Err(e) => Err(e),
                    Ok((d_end, cells)) => Ok((d_end, w, cells)),
                }
            }
        },
    }
}


/// The `include` rule: its keyword, whitespace, then an ASCII-letter
/// filename.
pub open spec fn spec_include(s: Seq<char>, p: int) -> SpecParsed<SpecRule> {
    match spec_rule_head(s, p, "include"@) {
        Err(e) => Err(e),
        Ok(q) => match spec_ascii_word(s, q) {
            Err(e) => Err(e),
            Ok((w_end, w)) => Ok((w_end, SpecRule::Include { filename: w })),
        },
    }
}

/// The `undefined` rule: its keyword, whitespace, then a dot pattern.
pub open spec fn spec_undefined(s: Seq<char>, p: int) -> SpecParsed<SpecRule> {
    match spec_rule_head(s, p, "undefined"@) {
        Err(e) => Err(e),
        Ok(q) => match spec_dots(s, q) {
            Err(e) => Err(e),
            Ok((d_end, cells)) => Ok((d_end, SpecRule::Undefined { dots: cells })),
        },
    }
}

/// The `display` rule: optional prefixes, its keyword, whitespace, a word,
/// whitespace, then a dot pattern.
pub open spec fn spec_display(s: Seq<char>, p: int) -> SpecParsed<SpecRule> {
    let (q, pfx) = spec_prefixes(s, p);
    match spec_rule_head(s, q, "display"@) {
        Err(e) => Err(e),
        Ok(a) => match spec_word_dots(s, a) {
            Err(e) => Err(e),
            Ok((d_end, wc)) => Ok(
                (d_end, SpecRule::Display { chars: wc.0, dots: wc.1, prefixes: pfx }),
            ),
        },
    }
}

/// The `multind` rule: optional prefixes, its keyword, whitespace, a word,
/// whitespace, then a dot pattern.
pub open spec fn spec_multind(s: Seq<char>, p: int) -> SpecParsed<SpecRule> {
    let (q, pfx) = spec_prefixes(s, p);
    match spec_rule_head(s, q, "multind"@) {
        Err(e) => Err(e),
        Ok(a) => match spec_word_dots(s, a) {
            Err(e) => Err(e),
            Ok((d_end, wc)) => Ok(
                (d_end, SpecRule::Multind { chars: wc.0, dots: wc.1, prefixes: pfx }),
            ),
        },
    }
}

/// The `largesign` rule: its keyword, whitespace, a word, whitespace, then
/// a dot pattern.
pub open spec fn spec_largesign(s: Seq<char>, p: int) -> SpecParsed<SpecRule> {
    match spec_rule_head(s, p, "largesign"@) {
        Err(e) => Err(e),
        Ok(q) => match spec_word_dots(s, q) {
            Err(e) => Err(e),
            Ok((d_end, wc)) => Ok((d_end, SpecRule::Largesign { word: wc.0, dots: wc.1 })),
        },
    }
}

/// The `syllable` rule: its keyword, whitespace, a word, whitespace, then a
/// dot pattern.
pub open spec fn spec_syllable(s: Seq<char>, p: int) -> SpecParsed<SpecRule> {
    match spec_rule_head(s, p, "syllable"@) {
        Err(e) => Err(e),
        Ok(q) => match spec_word_dots(s, q) {
            Err(e) => Err(e),
            Ok((d_end, wc)) => Ok((d_end, SpecRule::Syllable { word: wc.0, dots: wc.1 })),
        },
    }
}

/// The `joinword` rule: its keyword, whitespace, a word, whitespace, then a
/// dot pattern.
pub open spec fn spec_joinword(s: Seq<char>, p: int) -> SpecParsed<SpecRule> {
    match spec_rule_head(s, p, "joinword"@) {
        Err(e) => Err(e),
        Ok(q) => match spec_word_dots(s, q) {
            Err(e) => Err(e),
            Ok((d_end, wc)) => Ok((d_end, SpecRule::Joinword { word: wc.0, dots: wc.1 })),
        },
    }
}

/// Whether an alternative failed only because its keyword did not match, so
/// that the next one is to be tried.
pub open spec fn kw_missed<T>(r: SpecParsed<T>) -> bool {
    r matches Err(e) && e.1 == ErrorKind::UnrecognizedKeyword
}

/// The rule grammar: the seven rule forms tried in order, first match wins.
/// An alternative whose keyword does not match passes the turn on; one
/// whose keyword matches commits, and its failure is the rule's failure.
pub open spec fn spec_rule(s: Seq<char>, p: int) -> SpecParsed<SpecRule> {
    let r1 = spec_include(s, p);
    if !kw_missed(r1) {
        r1
    } else {
        let r2 = spec_undefined(s, p);
        if !kw_missed(r2) {
            r2
        } else {
            let r3 = spec_display(s, p);
            if !kw_missed(r3) {
                r3
            } else {
                let r4 = spec_multind(s, p);
                if !kw_missed(r4) {
                    r4
                } else {
                    let r5 = spec_largesign(s, p);
                    if !kw_missed(r5) {
                        r5
                    } else {
                        let r6 = spec_joinword(s, p);
                        if !kw_missed(r6) {
                            r6
                        } else {
                            spec_syllable(s, p)
                        }
                    }
                }
            }
        }
    }
}

/// The `include` rule starting at `pos`.
fn include_at(i: &str, pos: usize) -> (r: Result<(usize, Rule), ParseError>)
    requires
        pos <= i@.len(),
    ensures
        match r {
            Ok((q, rule)) => spec_include(i@, pos as int) == Ok::<_, (int, ErrorKind)>(
                (q as int, rule@),
            ) && pos < q <= i@.len(),
            Err(e) => spec_include(i@, pos as int) == Err::<(int, SpecRule), _>(
                (e.pos as int, e.kind),
            ),
        },
{
    match rule_head_at(i, pos, "include") {
        Err(e) => Err(e),
        Ok(q) => match ascii_word_at(i, q) {
            Err(e) => Err(e),
            Ok((w_end, w)) => Ok((w_end, Rule::Include { filename: w })),
        },
    }
}

/// The `undefined` rule starting at `pos`.
fn undefined_at(i: &str, pos: usize) -> (r: Result<(usize, Rule), ParseError>)
    requires
        pos <= i@.len(),
    ensures
        match r {
            Ok((q, rule)) => spec_undefined(i@, pos as int) == Ok::<_, (int, ErrorKind)>(
                (q as int, rule@),
            ) && pos < q <= i@.len(),
            Err(e) => spec_undefined(i@, pos as int) == Err::<(int, SpecRule), _>(
                (e.pos as int, e.kind),
            ),
        },
{
    match rule_head_at(i, pos, "undefined") {
        Err(e) => Err(e),
        Ok(q) => match dots_at(i, q) {
            Err(e) => Err(e),
            Ok((d_end, cells)) => Ok((d_end, Rule::Undefined { dots: cells })),
        },
    }
}

/// The `display` rule starting at `pos`.
fn display_at(i: &str, pos: usize) -> (r: Result<(usize, Rule), ParseError>)
    requires
        pos <= i@.len(),
    ensures
        match r {
            Ok((q, rule)) => spec_display(i@, pos as int) == Ok::<_, (int, ErrorKind)>(
                (q as int, rule@),
            ) && pos < q <= i@.len(),
            Err(e) => spec_display(i@, pos as int) == Err::<(int, SpecRule), _>(
                (e.pos as int, e.kind),
            ),
        },
{
    let (q, pfx) = prefixes_at(i, pos);
    match rule_head_at(i, q, "display") {
        Err(e) => Err(e),
        Ok(a) => match word_dots_at(i, a) {
            Err(e) => Err(e),
            Ok((d_end, w, cells)) => Ok(
                (d_end, Rule::Display { chars: w, dots: cells, prefixes: pfx }),
            ),
        },
    }
}

/// The `multind` rule starting at `pos`.
fn multind_at(i: &str, pos: usize) -> (r: Result<(usize, Rule), ParseError>)
    requires
        pos <= i@.len(),
    ensures
        match r {
            Ok((q, rule)) => spec_multind(i@, pos as int) == Ok::<_, (int, ErrorKind)>(
                (q as int, rule@),
            ) && pos < q <= i@.len(),
            Err(e) => spec_multind(i@, pos as int) == Err::<(int, SpecRule), _>(
                (e.pos as int, e.kind),
            ),
        },
{
    let (q, pfx) = prefixes_at(i, pos);
    match rule_head_at(i, q, "multind") {
        Err(e) => Err(e),
        Ok(a) => match word_dots_at(i, a) {
            Err(e) => Err(e),
            Ok((d_end, w, cells)) => Ok(
                (d_end, Rule::Multind { chars: w, dots: cells, prefixes: pfx }),
            ),
        },
    }
}

/// The `largesign` rule starting at `pos`.
fn largesign_at(i: &str, pos: usize) -> (r: Result<(usize, Rule), ParseError>)
    requires
        pos <= i@.len(),
    ensures
        match r {
            Ok((q, rule)) => spec_largesign(i@, pos as int) == Ok::<_, (int, ErrorKind)>(
                (q as int, rule@),
            ) && pos < q <= i@.len(),
            Err(e) => spec_largesign(i@, pos as int) == Err::<(int, SpecRule), _>(
                (e.pos as int, e.kind),
            ),
        },
{
    match rule_head_at(i, pos, "largesign") {
        Err(e) => Err(e),
        Ok(q) => match word_dots_at(i, q) {
            Err(e) => Err(e),
            Ok((d_end, w, cells)) => Ok((d_end, Rule::Largesign { word: w, dots: cells })),
        },
    }
}

/// The `syllable` rule starting at `pos`.
fn syllable_at(i: &str, pos: usize) -> (r: Result<(usize, Rule), ParseError>)
    requires
        pos <= i@.len(),
    ensures
        match r {
            Ok((q, rule)) => spec_syllable(i@, pos as int) == Ok::<_, (int, ErrorKind)>(
                (q as int, rule@),
            ) && pos < q <= i@.len(),
            Err(e) => spec_syllable(i@, pos as int) == Err::<(int, SpecRule), _>(
                (e.pos as int, e.kind),
            ),
        },
{
    match rule_head_at(i, pos, "syllable") {
        Err(e) => Err(e),
        Ok(q) => match word_dots_at(i, q) {
            Err(e) => Err(e),
            Ok((d_end, w, cells)) => Ok((d_end, Rule::Syllable { word: w, dots: cells })),
        },
    }
}

/// The `joinword` rule starting at `pos`.
fn joinword_at(i: &str, pos: usize) -> (r: Result<(usize, Rule), ParseError>)
    requires
        pos <= i@.len(),
    ensures
        match r {
            Ok((q, rule)) => spec_joinword(i@, pos as int) == Ok::<_, (int, ErrorKind)>(
                (q as int, rule@),
            ) && pos < q <= i@.len(),
            Err(e) => spec_joinword(i@, pos as int) == Err::<(int, SpecRule), _>(
                (e.pos as int, e.kind),
            ),
        },
{
    match rule_head_at(i, pos, "joinword") {
        Err(e) => Err(e),
        Ok(q) => match word_dots_at(i, q) {
            Err(e) => Err(e),
            Ok((d_end, w, cells)) => Ok((d_end, Rule::Joinword { word: w, dots: cells })),
        },
    }
}

/// Whether an executable alternative failed only on its keyword.
fn kw_missed_exec(r: &Result<(usize, Rule), ParseError>) -> (b: bool)
    ensures
        b == (r matches Err(e) && e.kind == ErrorKind::UnrecognizedKeyword),
{
    match r {
        Err(e) => e.kind == ErrorKind::UnrecognizedKeyword,
        _ => false,
    }
}

/// The rule grammar at `pos`: the seven forms in order, first match wins.
fn rule_at(i: &str, pos: usize) -> (r: Result<(usize, Rule), ParseError>)
    requires
        pos <= i@.len(),
    ensures
        match r {
            Ok((q, rule)) => spec_rule(i@, pos as int) == Ok::<_, (int, ErrorKind)>(
                (q as int, rule@),
            ) && pos < q <= i@.len(),
            Err(e) => spec_rule(i@, pos as int) == Err::<(int, SpecRule), _>(
                (e.pos as int, e.kind),
            ),
        },
{
    let r = include_at(i, pos);
    if !kw_missed_exec(&r) {
        return r;
    }
    let r = undefined_at(i, pos);
    if !kw_missed_exec(&r) {
        return r;
    }
    let r = display_at(i, pos);
    if !kw_missed_exec(&r) {
        return r;
    }
    let r = multind_at(i, pos);
    if !kw_missed_exec(&r) {
        return r;
    }
    let r = largesign_at(i, pos);
    if !kw_missed_exec(&r) {
        return r;
    }
    let r = joinword_at(i, pos);
    if !kw_missed_exec(&r) {
        return r;
    }
    syllable_at(i, pos)
}


/// A trailing comment: required whitespace, then everything up to the line
/// terminator, captured verbatim.
pub open spec fn spec_end_comment(s: Seq<char>, p: int) -> SpecParsed<Seq<char>> {
    let sp = scan_end(s, p, space_pred());
    if sp > p {
        let te = scan_end(s, sp, text_pred());
        Ok((te, s.subrange(sp, te)))
    } else {
        Err((p, ErrorKind::MissingArgument))
    }
}

/// A trailing comment starting at `pos`.
fn end_comment_at(i: &str, pos: usize) -> (r: Result<(usize, String), ParseError>)
    requires
        pos <= i@.len(),
    ensures
        match r {
            Ok((q, c)) => spec_end_comment(i@, pos as int) == Ok::<_, (int, ErrorKind)>(
                (q as int, c@),
            ) && pos < q <= i@.len(),
            Err(e) => spec_end_comment(i@, pos as int) == Err::<(int, Seq<char>), _>(
                (e.pos as int, e.kind),
            ),
        },
{
    let sp = scan_space(i, pos);
    if sp > pos {
        let te = scan_text(i, sp);
        let c = i.substring_char(sp, te).to_owned();
        Ok((te, c))
    } else {
        Err(ParseError { pos, kind: ErrorKind::MissingArgument })
    }
}

/// A line terminator standing at `pos`.
fn line_end_exec(i: &str, pos: usize) -> (r: Option<usize>)
    requires
        pos <= i@.len(),
    ensures
        match r {
            Some(q) => line_end_at(i@, pos as int) == Some(q as int) && pos < q <= i@.len(),
            None => line_end_at(i@, pos as int) is None,
        },
{
    let len = i.unicode_len();
    if pos < len && i.get_char(pos) == '\n' {
        Some(pos + 1)
    } else if pos < len && i.get_char(pos) == '\r' && pos + 1 < len && i.get_char(pos + 1)
        == '\n' {
        Some(pos + 2)
    } else {
        None
    }
}

/// A rule line: a rule, an optional trailing comment, then a mandatory line
/// terminator. When the comment is absent the trailing whitespace alone is
/// consumed and the comment is empty.
pub open spec fn spec_rule_line(s: Seq<char>, p: int) -> SpecParsed<SpecLine> {
    match spec_rule(s, p) {
        Err(e) => Err(e),
        Ok((q, rule)) => {
            let ce = match spec_end_comment(s, q) {
                Ok(tc) => tc,
                Err(_) => (q, Seq::<char>::empty()),
            };
            match line_end_at(s, ce.0) {
                Some(e2) => Ok((e2, SpecLine::Rule { rule, comment: ce.1 })),
                None => Err((ce.0, ErrorKind::MissingLineTerminator)),
            }
        },
    }
}

/// A rule line starting at `pos`.
fn rule_line_at(i: &str, pos: usize) -> (r: Result<(usize, Line), ParseError>)
    requires
        pos <= i@.len(),
    ensures
        match r {
            Ok((q, l)) => spec_rule_line(i@, pos as int) == Ok::<_, (int, ErrorKind)>(
                (q as int, l@),
            ) && pos < q <= i@.len(),
            Err(e) => spec_rule_line(i@, pos as int) == Err::<(int, SpecLine), _>(
                (e.pos as int, e.kind),
            ),
        },
{
    match rule_at(i, pos) {
        Err(e) => Err(e),
        Ok((q, rule)) => {
            let (c_end, comment) = match end_comment_at(i, q) {
                Ok((te, c)) => (te, c),
                Err(_) => (q, String::new()),
            };
            match line_end_exec(i, c_end) {
                Some(e2) => Ok((e2, Line::Rule { rule, comment })),
                None => Err(ParseError { pos: c_end, kind: ErrorKind::MissingLineTerminator }),
            }
        },
    }
}

/// A comment line: a `#`, everything up to the line terminator captured
/// verbatim and unstripped, then the mandatory terminator.
pub open spec fn spec_comment_line(s: Seq<char>, p: int) -> SpecParsed<SpecLine> {
    if 0 <= p < s.len() && s[p] == '#' {
        let te = scan_end(s, p + 1, text_pred());
        match line_end_at(s, te) {
            Some(e2) => Ok((e2, SpecLine::Comment { comment: s.subrange(p + 1, te) })),
            None => Err((te, ErrorKind::MissingLineTerminator)),
        }
    } else {
        Err((p, ErrorKind::UnrecognizedLine))
    }
}

/// A comment line starting at `pos`.
fn comment_line_at(i: &str, pos: usize) -> (r: Result<(usize, Line), ParseError>)
    requires
        pos <= i@.len(),
    ensures
        match r {
            Ok((q, l)) => spec_comment_line(i@, pos as int) == Ok::<_, (int, ErrorKind)>(
                (q as int, l@),
            ) && pos < q <= i@.len(),
            Err(e) => spec_comment_line(i@, pos as int) == Err::<(int, SpecLine), _>(
                (e.pos as int, e.kind),
            ),
        },
{
    let len = i.unicode_len();
    if pos < len && i.get_char(pos) == '#' {
        let te = scan_text(i, pos + 1);
        let c = i.substring_char(pos + 1, te).to_owned();
        match line_end_exec(i, te) {
            Some(e2) => Ok((e2, Line::Comment { comment: c })),
            None => Err(ParseError { pos: te, kind: ErrorKind::MissingLineTerminator }),
        }
    } else {
        Err(ParseError { pos, kind: ErrorKind::UnrecognizedLine })
    }
}

/// An empty line: optional horizontal whitespace, then the mandatory line
/// terminator.
pub open spec fn spec_empty_line(s: Seq<char>, p: int) -> SpecParsed<SpecLine> {
    let sp = scan_end(s, p, space_pred());
    match line_end_at(s, sp) {
        Some(e2) => Ok((e2, SpecLine::Empty)),
        None => Err((sp, ErrorKind::MissingLineTerminator)),
    }
}

/// An empty line starting at `pos`.
fn empty_line_at(i: &str, pos: usize) -> (r: Result<(usize, Line), ParseError>)
    requires
        pos <= i@.len(),
    ensures
        match r {
            Ok((q, l)) => spec_empty_line(i@, pos as int) == Ok::<_, (int, ErrorKind)>(
                (q as int, l@),
            ) && pos < q <= i@.len(),
            Err(e) => spec_empty_line(i@, pos as int) == Err::<(int, SpecLine), _>(
                (e.pos as int, e.kind),
            ),
        },
{
    let sp = scan_space(i, pos);
    match line_end_exec(i, sp) {
        Some(e2) => Ok((e2, Line::Empty)),
        None => Err(ParseError { pos: sp, kind: ErrorKind::MissingLineTerminator }),
    }
}

/// One line of a table file: a rule line, else a comment line, else an
/// empty line, in that order; anything else is a hard failure.
pub open spec fn spec_line(s: Seq<char>, p: int) -> SpecParsed<SpecLine> {
    if spec_rule_line(s, p) is Ok {
        spec_rule_line(s, p)
    } else if spec_comment_line(s, p) is Ok {
        spec_comment_line(s, p)
    } else if spec_empty_line(s, p) is Ok {
        spec_empty_line(s, p)
    } else {
        Err((p, ErrorKind::UnrecognizedLine))
    }
}

/// One line starting at `pos`.
fn line_at(i: &str, pos: usize) -> (r: Result<(usize, Line), ParseError>)
    requires
        pos <= i@.len(),
    ensures
        match r {
            Ok((q, l)) => spec_line(i@, pos as int) == Ok::<_, (int, ErrorKind)>((q as int, l@))
                && pos < q <= i@.len(),
            Err(e) => spec_line(i@, pos as int) == Err::<(int, SpecLine), _>(
                (e.pos as int, e.kind),
            ),
        },
{
    match rule_line_at(i, pos) {
        Ok(ok) => Ok(ok),
        Err(_) => match comment_line_at(i, pos) {
            Ok(ok) => Ok(ok),
            Err(_) => match empty_line_at(i, pos) {
                Ok(ok) => Ok(ok),
                Err(_) => Err(ParseError { pos, kind: ErrorKind::UnrecognizedLine }),
            },
        },
    }
}

/// The views of a sequence of parsed lines.
pub open spec fn line_views(ls: Seq<Line>) -> Seq<SpecLine> {
    ls.map_values(|l: Line| l@)
}

/// The table grammar: lines parsed one after the other from `p`, stopping
/// cleanly at the first position where no line matches. It never fails; it
/// yields the lines parsed and the position where parsing stopped.
pub open spec fn spec_table(s: Seq<char>, p: int) -> (int, Seq<SpecLine>)
    decreases s.len() - p,
{
    match spec_line(s, p) {
        Ok((q, l)) => if p < q <= s.len() {
            let rest = spec_table(s, q);
            (rest.0, seq![l] + rest.1)
        } else {
            (p, Seq::empty())
        },
        Err(_) => (p, Seq::empty()),
    }
}

/// The whole-table parser starting at `pos`.
fn table_at(i: &str, pos: usize) -> (r: (usize, Vec<Line>))
    requires
        pos <= i@.len(),
    ensures
        spec_table(i@, pos as int) == (r.0 as int, line_views(r.1@)),
        pos <= r.0 <= i@.len(),
{
    let mut lines: Vec<Line> = Vec::new();
    let mut cur: usize = pos;
    let mut stop = false;
    while !stop
        invariant
            pos <= cur <= i@.len(),
            spec_table(i@, pos as int).0 == spec_table(i@, cur as int).0,
            spec_table(i@, pos as int).1 == line_views(lines@) + spec_table(i@, cur as int).1,
            stop ==> spec_line(i@, cur as int) is Err,
        decreases i@.len() - cur + (if stop { 0int } else { 1int }),
    {
        match line_at(i, cur) {
            Ok((q, l)) => {
                proof {
                    assert(line_views(lines@.push(l)) =~= line_views(lines@).push(l@));
                    assert(line_views(lines@).push(l@) + spec_table(i@, q as int).1 =~= line_views(
                        lines@,
                    ) + (seq![l@] + spec_table(i@, q as int).1));
                }
                lines.push(l);
                cur = q;
            },
            Err(_) => {
                stop = true;
            },
        }
    }
    proof {
        assert(spec_table(i@, cur as int) == (cur as int, Seq::<SpecLine>::empty()));
        assert(line_views(lines@) + Seq::<SpecLine>::empty() =~= line_views(lines@));
    }
    (cur, lines)
}


/// The unconsumed remainder of the input, from a character position.
fn rest_from(i: &str, q: usize) -> (r: &str)
    requires
        q <= i@.len(),
    ensures
        r@ == i@.subrange(q as int, i@.len() as int),
{
    i.substring_char(q, i.unicode_len())
}

/// One or more Unicode letters at the start of the input: the matched word
/// and the remainder.
pub fn chars(i: &str) -> (r: Result<(&str, String), ParseError>)
    ensures
        match r {
            Ok(ok) => spec_word(i@, 0) matches Ok((n, w)) && (w == ok.1@ && ok.0@ == i@.subrange(
                n,
                i@.len() as int,
            )),
            Err(e) => spec_word(i@, 0) == Err::<(int, Seq<char>), _>((e.pos as int, e.kind)),
        },
{
    match word_at(i, 0) {
        Ok((q, w)) => Ok((rest_from(i, q), w)),
        Err(e) => Err(e),
    }
}

/// One or more ASCII letters at the start of the input: the matched word
/// and the remainder.
pub fn ascii_chars(i: &str) -> (r: Result<(&str, String), ParseError>)
    ensures
        match r {
            Ok(ok) => spec_ascii_word(i@, 0) matches Ok((n, w)) && (w == ok.1@ && ok.0@
                == i@.subrange(n, i@.len() as int)),
            Err(e) => spec_ascii_word(i@, 0) == Err::<(int, Seq<char>), _>((e.pos as int, e.kind)),
        },
{
    match ascii_word_at(i, 0) {
        Ok((q, w)) => Ok((rest_from(i, q), w)),
        Err(e) => Err(e),
    }
}

/// A dot pattern at the start of the input: its cells and the remainder.
pub fn dots(i: &str) -> (r: Result<(&str, Vec<BrailleCell>), ParseError>)
    ensures
        match r {
            Ok(ok) => spec_dots(i@, 0) matches Ok((n, cells)) && (cells == ok.1@ && ok.0@
                == i@.subrange(n, i@.len() as int)),
            Err(e) => spec_dots(i@, 0) == Err::<(int, Seq<BrailleCell>), _>(
                (e.pos as int, e.kind),
            ),
        },
{
    match dots_at(i, 0) {
        Ok((q, cells)) => Ok((rest_from(i, q), cells)),
        Err(e) => Err(e),
    }
}

/// The prefix modifiers at the start of the input. This parser is total:
/// whatever the input, it yields a flag set, the empty one when nothing
/// matches, and `noback` and `nofor` are never both in it.
pub fn prefixes(i: &str) -> (r: (&str, Prefixes))
    ensures
        spec_prefixes(i@, 0).1 == r.1,
        r.0@ == i@.subrange(spec_prefixes(i@, 0).0, i@.len() as int),
        !(r.1.noback && r.1.nofor),
{
    let (q, pfx) = prefixes_at(i, 0);
    (rest_from(i, q), pfx)
}


/// The `include` rule at the start of the input.
pub fn include_rule(i: &str) -> (r: Result<(&str, Rule), ParseError>)
    ensures
        match r {
            Ok(ok) => spec_include(i@, 0) matches Ok((n, sr)) && (sr == ok.1@ && ok.0@
                == i@.subrange(n, i@.len() as int)),
            Err(e) => spec_include(i@, 0) == Err::<(int, SpecRule), _>((e.pos as int, e.kind)),
        },
{
    match include_at(i, 0) {
        Ok((q, rule)) => Ok((rest_from(i, q), rule)),
        Err(e) => Err(e),
    }
}

/// The `undefined` rule at the start of the input.
pub fn undefined(i: &str) -> (r: Result<(&str, Rule), ParseError>)
    ensures
        match r {
            Ok(ok) => spec_undefined(i@, 0) matches Ok((n, sr)) && (sr == ok.1@ && ok.0@
                == i@.subrange(n, i@.len() as int)),
            Err(e) => spec_undefined(i@, 0) == Err::<(int, SpecRule), _>((e.pos as int, e.kind)),
        },
{
    match undefined_at(i, 0) {
        Ok((q, rule)) => Ok((rest_from(i, q), rule)),
        Err(e) => Err(e),
    }
}

/// The `display` rule at the start of the input.
pub fn display(i: &str) -> (r: Result<(&str, Rule), ParseError>)
    ensures
        match r {
            Ok(ok) => spec_display(i@, 0) matches Ok((n, sr)) && (sr == ok.1@ && ok.0@
                == i@.subrange(n, i@.len() as int)),
            Err(e) => spec_display(i@, 0) == Err::<(int, SpecRule), _>((e.pos as int, e.kind)),
        },
{
    match display_at(i, 0) {
        Ok((q, rule)) => Ok((rest_from(i, q), rule)),
        Err(e) => Err(e),
    }
}

/// The `multind` rule at the start of the input.
pub fn multind(i: &str) -> (r: Result<(&str, Rule), ParseError>)
    ensures
        match r {
            Ok(ok) => spec_multind(i@, 0) matches Ok((n, sr)) && (sr == ok.1@ && ok.0@
                == i@.subrange(n, i@.len() as int)),
            Err(e) => spec_multind(i@, 0) == Err::<(int, SpecRule), _>((e.pos as int, e.kind)),
        },
{
    match multind_at(i, 0) {
        Ok((q, rule)) => Ok((rest_from(i, q), rule)),
        Err(e) => Err(e),
    }
}

/// The `largesign` rule at the start of the input.
pub fn largesign(i: &str) -> (r: Result<(&str, Rule), ParseError>)
    ensures
        match r {
            Ok(ok) => spec_largesign(i@, 0) matches Ok((n, sr)) && (sr == ok.1@ && ok.0@
                == i@.subrange(n, i@.len() as int)),
            Err(e) => spec_largesign(i@, 0) == Err::<(int, SpecRule), _>((e.pos as int, e.kind)),
        },
{
    match largesign_at(i, 0) {
        Ok((q, rule)) => Ok((rest_from(i, q), rule)),
        Err(e) => Err(e),
    }
}

/// The `syllable` rule at the start of the input.
pub fn syllable(i: &str) -> (r: Result<(&str, Rule), ParseError>)
    ensures
        match r {
            Ok(ok) => spec_syllable(i@, 0) matches Ok((n, sr)) && (sr == ok.1@ && ok.0@
                == i@.subrange(n, i@.len() as int)),
            Err(e) => spec_syllable(i@, 0) == Err::<(int, SpecRule), _>((e.pos as int, e.kind)),
        },
{
    match syllable_at(i, 0) {
        Ok((q, rule)) => Ok((rest_from(i, q), rule)),
        Err(e) => Err(e),
    }
}

/// The `joinword` rule at the start of the input.
pub fn joinword(i: &str) -> (r: Result<(&str, Rule), ParseError>)
    ensures
        match r {
            Ok(ok) => spec_joinword(i@, 0) matches Ok((n, sr)) && (sr == ok.1@ && ok.0@
                == i@.subrange(n, i@.len() as int)),
            Err(e) => spec_joinword(i@, 0) == Err::<(int, SpecRule), _>((e.pos as int, e.kind)),
        },
{
    match joinword_at(i, 0) {
        Ok((q, rule)) => Ok((rest_from(i, q), rule)),
        Err(e) => Err(e),
    }
}

/// A rule line at the start of the input.
pub fn rule_line(i: &str) -> (r: Result<(&str, Line), ParseError>)
    ensures
        match r {
            Ok(ok) => spec_rule_line(i@, 0) matches Ok((n, sl)) && (sl == ok.1@ && ok.0@
                == i@.subrange(n, i@.len() as int)),
            Err(e) => spec_rule_line(i@, 0) == Err::<(int, SpecLine), _>((e.pos as int, e.kind)),
        },
{
    match rule_line_at(i, 0) {
        Ok((q, l)) => Ok((rest_from(i, q), l)),
        Err(e) => Err(e),
    }
}

/// A comment line at the start of the input.
pub fn comment_line(i: &str) -> (r: Result<(&str, Line), ParseError>)
    ensures
        match r {
            Ok(ok) => spec_comment_line(i@, 0) matches Ok((n, sl)) && (sl == ok.1@ && ok.0@
                == i@.subrange(n, i@.len() as int)),
            Err(e) => spec_comment_line(i@, 0) == Err::<(int, SpecLine), _>((e.pos as int, e.kind)),
        },
{
    match comment_line_at(i, 0) {
        Ok((q, l)) => Ok((rest_from(i, q), l)),
        Err(e) => Err(e),
    }
}

/// A empty line at the start of the input.
pub fn empty_line(i: &str) -> (r: Result<(&str, Line), ParseError>)
    ensures
        match r {
            Ok(ok) => spec_empty_line(i@, 0) matches Ok((n, sl)) && (sl == ok.1@ && ok.0@
                == i@.subrange(n, i@.len() as int)),
            Err(e) => spec_empty_line(i@, 0) == Err::<(int, SpecLine), _>((e.pos as int, e.kind)),
        },
{
    match empty_line_at(i, 0) {
        Ok((q, l)) => Ok((rest_from(i, q), l)),
        Err(e) => Err(e),
    }
}

/// A line of any of the three forms at the start of the input.
pub fn line(i: &str) -> (r: Result<(&str, Line), ParseError>)
    ensures
        match r {
            Ok(ok) => spec_line(i@, 0) matches Ok((n, sl)) && (sl == ok.1@ && ok.0@
                == i@.subrange(n, i@.len() as int)),
            Err(e) => spec_line(i@, 0) == Err::<(int, SpecLine), _>((e.pos as int, e.kind)),
        },
{
    match line_at(i, 0) {
        Ok((q, l)) => Ok((rest_from(i, q), l)),
        Err(e) => Err(e),
    }
}

/// A trailing comment at the start of the input: required whitespace, then
/// the text up to the line terminator.
pub fn end_comment(i: &str) -> (r: Result<(&str, String), ParseError>)
    ensures
        match r {
            Ok(ok) => spec_end_comment(i@, 0) matches Ok((n, c)) && (c == ok.1@ && ok.0@
                == i@.subrange(n, i@.len() as int)),
            Err(e) => spec_end_comment(i@, 0) == Err::<(int, Seq<char>), _>(
                (e.pos as int, e.kind),
            ),
        },
{
    match end_comment_at(i, 0) {
        Ok((q, c)) => Ok((rest_from(i, q), c)),
        Err(e) => Err(e),
    }
}

/// A whole table: every line that matches, in order, and the unconsumed
/// remainder, which is empty exactly when the whole input parsed. This
/// parser never fails; the caller inspects the remainder and decides.
pub fn table(i: &str) -> (r: (&str, Vec<Line>))
    ensures
        spec_table(i@, 0).1 == line_views(r.1@),
        r.0@ == i@.subrange(spec_table(i@, 0).0, i@.len() as int),
{
    let (q, lines) = table_at(i, 0);
    (rest_from(i, q), lines)
}

/// The number of dash separators in `s` between `p` and `q`.
pub open spec fn dash_count(s: Seq<char>, p: int, q: int) -> int
    decreases q - p,
{
    if p >= q {
        0
    } else {
        (if s[p] == '-' {
            1int
        } else {
            0int
        }) + dash_count(s, p + 1, q)
    }
}

proof fn lemma_dash_count_hex(s: Seq<char>, p: int, q: int)
    requires
        0 <= p,
        q <= s.len(),
        forall|k: int| p <= k < q ==> is_hex_digit(#[trigger] s[k]),
    ensures
        dash_count(s, p, q) == 0,
    decreases q - p,
{
    if p < q {
        lemma_dash_count_hex(s, p + 1, q);
    }
}

proof fn lemma_dash_count_concat(s: Seq<char>, p: int, m: int, q: int)
    requires
        p <= m <= q,
    ensures
        dash_count(s, p, q) == dash_count(s, p, m) + dash_count(s, m, q),
    decreases m - p,
{
    if p < m {
        lemma_dash_count_concat(s, p + 1, m, q);
    }
}


proof fn lemma_spec_dots_bounds(s: Seq<char>, p: int)
    requires
        0 <= p <= s.len(),
        spec_dots(s, p) is Ok,
    ensures
        p < spec_dots(s, p)->Ok_0.0 <= s.len(),
    decreases s.len() - p,
{
    let e = scan_end(s, p, hex_pred());
    lemma_scan_end(s, p, hex_pred());
    if e < s.len() && s[e] == '-' {
        lemma_spec_dots_bounds(s, e + 1);
    }
}

/// A parsed dot pattern has one cell per dash-separated group, in the
/// order written: its length is one more than the number of dash
/// separators in the span it consumed.
pub proof fn lemma_dots_group_count(s: Seq<char>, p: int)
    requires
        0 <= p <= s.len(),
        spec_dots(s, p) is Ok,
    ensures
        (spec_dots(s, p)->Ok_0.1.len() as int) == 1 + dash_count(s, p, spec_dots(s, p)->Ok_0.0),
    decreases s.len() - p,
{
    let e = scan_end(s, p, hex_pred());
    lemma_scan_end(s, p, hex_pred());
    lemma_dash_count_hex(s, p, e);
    if e < s.len() && s[e] == '-' {
        let q = spec_dots(s, p)->Ok_0.0;
        lemma_spec_dots_bounds(s, e + 1);
        lemma_dots_group_count(s, e + 1);
        let rest = spec_dots(s, e + 1);
        lemma_dash_count_concat(s, p, e, q);
        assert(dash_count(s, e, q) == 1 + dash_count(s, e + 1, q));
    }
}


/// A non-empty string of dot digits alone parses as one dot group: the
/// whole input is consumed and the one resulting cell is the union of the
/// dots its distinct digits decode to.
pub proof fn lemma_single_group_parse(s: Seq<char>)
    requires
        s.len() > 0,
        forall|k: int| 0 <= k < s.len() ==> is_hex_digit(#[trigger] s[k]),
    ensures
        spec_dots(s, 0) == Ok::<_, (int, ErrorKind)>((s.len() as int, seq![run_cell(s)])),
        run_cell(s).dot_set().len() == s.to_set().len(),
{
    lemma_scan_end(s, 0, hex_pred());
    let e = scan_end(s, 0, hex_pred());
    assert(e == s.len());
    assert(s.subrange(0, s.len() as int) =~= s);
    crate::cells::lemma_run_cell_flag_count(s);
}


proof fn lemma_scan_end_shift(u: Seq<char>, t: Seq<char>, m: int, p: int, pred: spec_fn(char) -> bool)
    requires
        0 <= m,
        0 <= p <= t.len(),
        u.len() == m + t.len(),
        forall|k: int| 0 <= k < t.len() ==> u[m + k] == #[trigger] t[k],
    ensures
        scan_end(u, m + p, pred) == m + scan_end(t, p, pred),
    decreases t.len() - p,
{
    if p < t.len() && pred(t[p]) {
        lemma_scan_end_shift(u, t, m, p + 1, pred);
    }
}

proof fn lemma_spec_dots_shift(u: Seq<char>, t: Seq<char>, m: int, p: int)
    requires
        0 <= m,
        0 <= p <= t.len(),
        u.len() == m + t.len(),
        forall|k: int| 0 <= k < t.len() ==> u[m + k] == #[trigger] t[k],
    ensures
        spec_dots(u, m + p) == (match spec_dots(t, p) {
            Ok((q, cells)) => Ok::<_, (int, ErrorKind)>((m + q, cells)),
            Err((q, k)) => Err::<(int, Seq<BrailleCell>), _>((m + q, k)),
        }),
    decreases t.len() - p,
{
    lemma_scan_end_shift(u, t, m, p, hex_pred());
    lemma_scan_end(t, p, hex_pred());
    let e = scan_end(t, p, hex_pred());
    if e <= p {
    } else {
        assert(u.subrange(m + p, m + e) =~= t.subrange(p, e));
        if e < t.len() && t[e] == '-' {
            lemma_spec_dots_shift(u, t, m, e + 1);
        }
    }
}

/// Joining one more dot-digit run in front of a dot pattern with a dash
/// prepends exactly that run's cell: each dash-separated group yields its
/// own cell, in the order written.
pub proof fn lemma_dots_join(g: Seq<char>, t: Seq<char>)
    requires
        g.len() > 0,
        forall|k: int| 0 <= k < g.len() ==> is_hex_digit(#[trigger] g[k]),
        spec_dots(t, 0) is Ok,
    ensures
        spec_dots(g + seq!['-'] + t, 0) == (match spec_dots(t, 0) {
            Ok((q, cells)) => Ok::<_, (int, ErrorKind)>(
                (g.len() + 1 + q, seq![run_cell(g)] + cells),
            ),
            Err(e) => Err::<(int, Seq<BrailleCell>), _>(e),
        }),
{
    let u = g + seq!['-'] + t;
    let m: int = g.len() as int + 1;
    assert forall|k: int| 0 <= k < t.len() implies u[m + k] == #[trigger] t[k] by {}
    assert(u[g.len() as int] == '-');
    lemma_scan_end_is(u, 0, g.len() as int, hex_pred());
    lemma_spec_dots_shift(u, t, m, 0);
    lemma_spec_dots_bounds(t, 0);
    assert(u.subrange(0, g.len() as int) =~= g);
}

/// The prefix grammar never yields both `noback` and `nofor`: the two are
/// mutually exclusive in every parsed flag set.
pub proof fn lemma_prefixes_exclusive(s: Seq<char>, p: int)
    ensures
        !(spec_prefixes(s, p).1.noback && spec_prefixes(s, p).1.nofor),
{
}
} // verus!
