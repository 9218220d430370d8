//! ASCII case folding for letters.
//!
//! All letter comparisons in the matcher are case-insensitive: inputs are
//! folded to lower case before matching, and results are folded to upper
//! case for display. Folding is defined on the ASCII letters alone; every
//! other character is left unchanged.

use vstd::prelude::*;

verus! {

/// The lower-case form of a character: ASCII upper-case letters are mapped
/// to their lower-case counterparts, everything else is unchanged.
pub open spec fn lower_char(c: char) -> char {
    if 65 <= c as u32 && c as u32 <= 90 {
        ((c as u32 + 32) as u8) as char
    } else {
        c
    }
}

/// The upper-case form of a character: ASCII lower-case letters are mapped
/// to their upper-case counterparts, everything else is unchanged.
pub open spec fn upper_char(c: char) -> char {
    if 97 <= c as u32 && c as u32 <= 122 {
        ((c as u32 - 32) as u8) as char
    } else {
        c
    }
}

/// A word folded to lower case, character by character.
pub open spec fn lower_seq(s: Seq<char>) -> Seq<char> {
    s.map_values(|c: char| lower_char(c))
}

/// A word folded to upper case, character by character.
pub open spec fn upper_seq(s: Seq<char>) -> Seq<char> {
    s.map_values(|c: char| upper_char(c))
}

/// Folding to lower case twice is the same as folding once.
pub proof fn lemma_lower_char_idempotent(c: char)
    ensures
        lower_char(lower_char(c)) == lower_char(c),
{
}

/// Folding a word to lower case twice is the same as folding it once.
pub proof fn lemma_lower_seq_idempotent(s: Seq<char>)
    ensures
        lower_seq(lower_seq(s)) == lower_seq(s),
{
    assert(lower_seq(lower_seq(s)) =~= lower_seq(s)) by {
        assert forall|i: int| 0 <= i < s.len() implies lower_seq(lower_seq(s))[i]
            == lower_seq(s)[i] by {
            lemma_lower_char_idempotent(s[i]);
        }
    }
}

/// Fold one character to lower case.
pub fn to_lower_char(c: char) -> (r: char)
    ensures
        r == lower_char(c),
{
    let u = c as u32;
    if 65 <= u && u <= 90 {
        ((u + 32) as u8) as char
    } else {
        c
    }
}

/// Fold one character to upper case.
pub fn to_upper_char(c: char) -> (r: char)
    ensures
        r == upper_char(c),
{
    let u = c as u32;
    if 97 <= u && u <= 122 {
        ((u - 32) as u8) as char
    } else {
        c
    }
}

/// Fold a word to lower case.
pub fn to_lower_word(w: &Vec<char>) -> (r: Vec<char>)
    ensures
        r@ == lower_seq(w@),
{
    let mut r: Vec<char> = Vec::new();
    let mut i: usize = 0;
    while i < w.len()
        invariant
            i <= w.len(),
            r@ =~= lower_seq(w@.subrange(0, i as int)),
        decreases w.len() - i,
    {
        r.push(to_lower_char(w[i]));
        i = i + 1;
        assert(w@.subrange(0, i as int).drop_last() =~= w@.subrange(0, i - 1));
    }
    assert(w@.subrange(0, w@.len() as int) =~= w@);
    r
}

/// Fold a word to upper case.
pub fn to_upper_word(w: &Vec<char>) -> (r: Vec<char>)
    ensures
        r@ == upper_seq(w@),
{
    let mut r: Vec<char> = Vec::new();
    let mut i: usize = 0;
    while i < w.len()
        invariant
            i <= w.len(),
            r@ =~= upper_seq(w@.subrange(0, i as int)),
        decreases w.len() - i,
    {
        r.push(to_upper_char(w[i]));
        i = i + 1;
        assert(w@.subrange(0, i as int).drop_last() =~= w@.subrange(0, i - 1));
    }
    assert(w@.subrange(0, w@.len() as int) =~= w@);
    r
}

} // verus!
