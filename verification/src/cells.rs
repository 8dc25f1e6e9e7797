//! The dot model: the sixteen dot positions of a Braille cell, the decoding
//! of one lowercase hexadecimal digit to one dot, and cells as bit-flag sets
//! of dots.

use vstd::prelude::*;

verus! {

/// One of the sixteen dot positions of a Braille cell, labelled by the
/// lowercase hexadecimal digit that denotes it in a table file.
#[derive(Clone, Copy, PartialEq, Eq, Structural, Debug, Hash)]
pub enum BrailleDot {
    DOT0,
    DOT1,
    DOT2,
    DOT3,
    DOT4,
    DOT5,
    DOT6,
    DOT7,
    DOT8,
    DOT9,
    DOTA,
    DOTB,
    DOTC,
    DOTD,
    DOTE,
    DOTF,
}

/// Which dot, if any, a character denotes. Exactly the sixteen lowercase
/// hexadecimal digits decode, each to its own dot; everything else, the
/// uppercase letters included, is rejected.
pub open spec fn dot_of(c: char) -> Option<BrailleDot> {
    match c {
        '0' => Some(BrailleDot::DOT0),
        '1' => Some(BrailleDot::DOT1),
        '2' => Some(BrailleDot::DOT2),
        '3' => Some(BrailleDot::DOT3),
        '4' => Some(BrailleDot::DOT4),
        '5' => Some(BrailleDot::DOT5),
        '6' => Some(BrailleDot::DOT6),
        '7' => Some(BrailleDot::DOT7),
        '8' => Some(BrailleDot::DOT8),
        '9' => Some(BrailleDot::DOT9),
        'a' => Some(BrailleDot::DOTA),
        'b' => Some(BrailleDot::DOTB),
        'c' => Some(BrailleDot::DOTC),
        'd' => Some(BrailleDot::DOTD),
        'e' => Some(BrailleDot::DOTE),
        'f' => Some(BrailleDot::DOTF),
        _ => None,
    }
}

/// A character is a dot digit iff it decodes to a dot.
pub open spec fn is_hex_digit(c: char) -> bool {
    dot_of(c) is Some
}

/// Decode one character to a dot position.
pub fn char_to_dot(c: char) -> (r: Option<BrailleDot>)
    ensures
        r == dot_of(c),
{
    match c {
        '0' => Some(BrailleDot::DOT0),
        '1' => Some(BrailleDot::DOT1),
        '2' => Some(BrailleDot::DOT2),
        '3' => Some(BrailleDot::DOT3),
        '4' => Some(BrailleDot::DOT4),
        '5' => Some(BrailleDot::DOT5),
        '6' => Some(BrailleDot::DOT6),
        '7' => Some(BrailleDot::DOT7),
        '8' => Some(BrailleDot::DOT8),
        '9' => Some(BrailleDot::DOT9),
        'a' => Some(BrailleDot::DOTA),
        'b' => Some(BrailleDot::DOTB),
        'c' => Some(BrailleDot::DOTC),
        'd' => Some(BrailleDot::DOTD),
        'e' => Some(BrailleDot::DOTE),
        'f' => Some(BrailleDot::DOTF),
        _ => None,
    }
}

/// The index of a dot's bit in a cell's mask.
pub open spec fn dot_index(d: BrailleDot) -> u16 {
    match d {
        BrailleDot::DOT0 => 0,
        BrailleDot::DOT1 => 1,
        BrailleDot::DOT2 => 2,
        BrailleDot::DOT3 => 3,
        BrailleDot::DOT4 => 4,
        BrailleDot::DOT5 => 5,
        BrailleDot::DOT6 => 6,
        BrailleDot::DOT7 => 7,
        BrailleDot::DOT8 => 8,
        BrailleDot::DOT9 => 9,
        BrailleDot::DOTA => 10,
        BrailleDot::DOTB => 11,
        BrailleDot::DOTC => 12,
        BrailleDot::DOTD => 13,
        BrailleDot::DOTE => 14,
        BrailleDot::DOTF => 15,
    }
}

/// The bit that stands for one dot in a cell's mask.
pub open spec fn dot_mask(d: BrailleDot) -> u16 {
    1u16 << dot_index(d)
}

/// One Braille cell: the set of its raised dots, held as a 16-bit mask with
/// one bit per dot position.
#[derive(Clone, Copy, PartialEq, Eq, Structural, Debug)]
pub struct BrailleCell {
    pub bits: u16,
}

impl BrailleCell {
    /// Whether a dot is raised in this cell.
    pub open spec fn spec_has(self, d: BrailleDot) -> bool {
        self.bits & dot_mask(d) != 0
    }

    /// The raised dots of this cell, as a set.
    pub open spec fn dot_set(self) -> Set<BrailleDot> {
        Set::new(|d: BrailleDot| self.spec_has(d))
    }

    /// The cell with no raised dot.
    pub open spec fn spec_empty() -> BrailleCell {
        BrailleCell { bits: 0 }
    }

    pub fn empty() -> (r: BrailleCell)
        ensures
            r == Self::spec_empty(),
    {
        BrailleCell { bits: 0 }
    }

    /// This cell with one more raised dot.
    pub fn with(self, d: BrailleDot) -> (r: BrailleCell)
        ensures
            r.bits == self.bits | dot_mask(d),
    {
        let idx: u16 = match d {
            BrailleDot::DOT0 => 0,
            BrailleDot::DOT1 => 1,
            BrailleDot::DOT2 => 2,
            BrailleDot::DOT3 => 3,
            BrailleDot::DOT4 => 4,
            BrailleDot::DOT5 => 5,
            BrailleDot::DOT6 => 6,
            BrailleDot::DOT7 => 7,
            BrailleDot::DOT8 => 8,
            BrailleDot::DOT9 => 9,
            BrailleDot::DOTA => 10,
            BrailleDot::DOTB => 11,
            BrailleDot::DOTC => 12,
            BrailleDot::DOTD => 13,
            BrailleDot::DOTE => 14,
            BrailleDot::DOTF => 15,
        };
        assert(idx == dot_index(d));
        BrailleCell { bits: self.bits | (1u16 << idx) }
    }

    /// Whether a dot is raised in this cell.
    pub fn has(self, d: BrailleDot) -> (r: bool)
        ensures
            r == self.spec_has(d),
    {
        let idx: u16 = match d {
            BrailleDot::DOT0 => 0,
            BrailleDot::DOT1 => 1,
            BrailleDot::DOT2 => 2,
            BrailleDot::DOT3 => 3,
            BrailleDot::DOT4 => 4,
            BrailleDot::DOT5 => 5,
            BrailleDot::DOT6 => 6,
            BrailleDot::DOT7 => 7,
            BrailleDot::DOT8 => 8,
            BrailleDot::DOT9 => 9,
            BrailleDot::DOTA => 10,
            BrailleDot::DOTB => 11,
            BrailleDot::DOTC => 12,
            BrailleDot::DOTD => 13,
            BrailleDot::DOTE => 14,
            BrailleDot::DOTF => 15,
        };
        assert(idx == dot_index(d));
        self.bits & (1u16 << idx) != 0
    }
}

/// The bit mask of the cell denoted by one run of dot digits: the union of
/// the masks of the dots its characters decode to.
pub open spec fn run_bits(s: Seq<char>) -> u16
    decreases s.len(),
{
    if s.len() == 0 {
        0u16
    } else {
        run_bits(s.drop_last()) | (match dot_of(s.last()) {
            Some(d) => dot_mask(d),
            None => 0u16,
        })
    }
}

/// The cell denoted by one run of dot digits.
pub open spec fn run_cell(s: Seq<char>) -> BrailleCell {
    BrailleCell { bits: run_bits(s) }
}


/// Exactly the sixteen lowercase hexadecimal digits decode, and decoding
/// is injective: distinct digits decode to distinct dots.
pub proof fn lemma_dot_decoding()
    ensures
        forall|c: char|
            #[trigger] is_hex_digit(c) <==> (c == '0' || c == '1' || c == '2' || c == '3' || c
                == '4' || c == '5' || c == '6' || c == '7' || c == '8' || c == '9' || c == 'a'
                || c == 'b' || c == 'c' || c == 'd' || c == 'e' || c == 'f'),
        forall|c1: char, c2: char|
            is_hex_digit(c1) && is_hex_digit(c2) && c1 != c2 ==> dot_of(c1) != dot_of(c2),
{
}

proof fn lemma_dot_index_small(d: BrailleDot)
    ensures
        dot_index(d) < 16,
{
}

proof fn lemma_dot_index_injective(d1: BrailleDot, d2: BrailleDot)
    requires
        d1 != d2,
    ensures
        dot_index(d1) != dot_index(d2),
{
}

/// The dot of a digit, for digits that decode.
pub open spec fn dot_of_digit(c: char) -> BrailleDot {
    match dot_of(c) {
        Some(d) => d,
        None => BrailleDot::DOT0,
    }
}

/// A dot is raised in a run's cell exactly when some character of the run
/// decodes to it.
pub proof fn lemma_run_bits_membership(s: Seq<char>, d: BrailleDot)
    ensures
        (BrailleCell { bits: run_bits(s) }).spec_has(d) <==> exists|k: int|
            0 <= k < s.len() && dot_of(s[k]) == Some(d),
    decreases s.len(),
{
    lemma_dot_index_small(d);
    let kd = dot_index(d);
    if s.len() == 0 {
        assert(0u16 & (1u16 << kd) == 0) by (bit_vector);
    } else {
        lemma_run_bits_membership(s.drop_last(), d);
        let t = s.drop_last();
        let a = run_bits(t);
        let in_drop = exists|k: int| 0 <= k < t.len() && dot_of(t[k]) == Some(d);
        let in_s = exists|k: int| 0 <= k < s.len() && dot_of(s[k]) == Some(d);
        match dot_of(s.last()) {
            Some(dl) => {
                lemma_dot_index_small(dl);
                let kl = dot_index(dl);
                assert(run_bits(s) == a | (1u16 << kl));
                assert(((a | (1u16 << kl)) & (1u16 << kd) != 0) == ((a & (1u16 << kd) != 0) || ((
                1u16 << kl) & (1u16 << kd) != 0))) by (bit_vector);
                if dl == d {
                    assert(kd < 16 ==> ((1u16 << kd) & (1u16 << kd) != 0)) by (bit_vector);
                    assert(dot_of(s[s.len() - 1]) == Some(d));
                    assert(in_s);
                } else {
                    lemma_dot_index_injective(dl, d);
                    assert(kl < 16 && kd < 16 && kl != kd ==> ((1u16 << kl) & (1u16 << kd) == 0))
                        by (bit_vector);
                    assert((BrailleCell { bits: run_bits(s) }).spec_has(d) == (a & (1u16 << kd)
                        != 0));
                    assert(in_s ==> in_drop) by {
                        if in_s {
                            let k = choose|k: int|
                                0 <= k < s.len() && dot_of(s[k]) == Some(d);
                            assert(k < s.len() - 1);
                            assert(t[k] == s[k]);
                        }
                    };
                }
            },
            None => {
                assert((a | 0u16) == a) by (bit_vector);
                assert(run_bits(s) == a);
                assert(in_s ==> in_drop) by {
                    if in_s {
                        let k = choose|k: int| 0 <= k < s.len() && dot_of(s[k]) == Some(d);
                        assert(k < s.len() - 1);
                        assert(t[k] == s[k]);
                    }
                };
            },
        }
        assert(in_drop ==> in_s) by {
            if in_drop {
                let k = choose|k: int| 0 <= k < t.len() && dot_of(t[k]) == Some(d);
                assert(s[k] == t[k]);
                assert(in_s);
            }
        };
    }
}

/// One run of dot digits decodes to a cell with one raised dot for each
/// distinct digit of the run: its flag count is the number of distinct
/// characters of the run.
pub proof fn lemma_run_cell_flag_count(s: Seq<char>)
    requires
        forall|k: int| 0 <= k < s.len() ==> is_hex_digit(#[trigger] s[k]),
    ensures
        run_cell(s).dot_set().finite(),
        run_cell(s).dot_set().len() == s.to_set().len(),
{
    broadcast use vstd::seq_lib::seq_to_set_is_finite;

    let f = |c: char| dot_of_digit(c);
    assert(run_cell(s).dot_set() =~= s.to_set().map(f)) by {
        assert forall|d: BrailleDot| run_cell(s).dot_set().contains(d) implies s.to_set().map(
            f,
        ).contains(d) by {
            lemma_run_bits_membership(s, d);
            let k = choose|k: int| 0 <= k < s.len() && dot_of(s[k]) == Some(d);
            assert(s.contains(s[k]));
            assert(s.to_set().contains(s[k]));
            assert(f(s[k]) == d);
        };
        assert forall|d: BrailleDot| s.to_set().map(f).contains(d) implies run_cell(
            s,
        ).dot_set().contains(d) by {
            let c = choose|c: char| s.to_set().contains(c) && f(c) == d;
            assert(s.contains(c));
            let k = choose|k: int| 0 <= k < s.len() && s[k] == c;
            assert(is_hex_digit(c));
            assert(dot_of(s[k]) == Some(d));
            lemma_run_bits_membership(s, d);
        };
    };
    assert(vstd::relations::injective_on(f, s.to_set())) by {
        lemma_dot_decoding();
        assert forall|c1: char, c2: char|
            s.to_set().contains(c1) && s.to_set().contains(c2) && #[trigger] f(c1) == #[trigger] f(
                c2,
            ) implies c1 == c2 by {
            assert(s.contains(c1));
            assert(s.contains(c2));
            let k1 = choose|k: int| 0 <= k < s.len() && s[k] == c1;
            let k2 = choose|k: int| 0 <= k < s.len() && s[k] == c2;
            assert(is_hex_digit(c1));
            assert(is_hex_digit(c2));
        };
    };
    vstd::set_lib::lemma_map_size(s.to_set(), run_cell(s).dot_set(), f);
}
} // verus!
