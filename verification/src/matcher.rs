//! The constraint matcher: decides whether one candidate word satisfies a
//! normalized constraint set.
//!
//! All letters handed to the matcher are assumed already folded to lower
//! case. A constraint set is made of four parts:
//! - `state`: the partially known answer, a concrete letter or the wildcard
//!   `'_'` at each position;
//! - `excluded_letters`: letters confirmed absent from the answer;
//! - `unplaced_letters`: letters confirmed present in the answer but at an
//!   unconfirmed position;
//! - `excluded_placements`: masks, each ruling out specific letter-at-position
//!   pairs (the wildcard `'_'` meaning "no constraint at this position").
//!
//! Word-shaped values of different lengths are compared positionally over
//! their common prefix, as pairwise iteration gives it.

use vstd::prelude::*;

verus! {

/// Whether the candidate letter `g` is acceptable against the state letter
/// `s` at one position. A concrete state letter must be matched exactly. At
/// a wildcard position the candidate letter must not be an excluded letter,
/// unless it is also listed as unplaced (a letter may be marked absent at
/// one position and present at another).
pub open spec fn position_ok(s: char, g: char, excluded: Seq<char>, unplaced: Seq<char>) -> bool {
    if s == '_' {
        !(excluded.contains(g) && !unplaced.contains(g))
    } else {
        s == g
    }
}

/// The positional check over a whole candidate: every position of the common
/// prefix of `state` and `guess` is acceptable.
pub open spec fn positions_ok(
    state: Seq<char>,
    guess: Seq<char>,
    excluded: Seq<char>,
    unplaced: Seq<char>,
) -> bool {
    forall|i: int|
        0 <= i < state.len() && i < guess.len() ==> position_ok(
            state[i],
            guess[i],
            excluded,
            unplaced,
        )
}

/// The completeness check: every unplaced letter occurs somewhere in the
/// candidate. A single occurrence satisfies the check however often the
/// letter is listed.
pub open spec fn unplaced_ok(guess: Seq<char>, unplaced: Seq<char>) -> bool {
    forall|i: int| 0 <= i < unplaced.len() ==> guess.contains(unplaced[i])
}

/// One excluded-placement mask against a candidate: no non-wildcard mask
/// letter coincides with the candidate's letter at the same position, over
/// the common prefix of the two.
pub open spec fn mask_ok(mask: Seq<char>, guess: Seq<char>) -> bool {
    forall|i: int| 0 <= i < mask.len() && i < guess.len() ==> !(mask[i] != '_' && mask[i] == guess[i])
}

/// The excluded-placement check: every mask passes.
pub open spec fn placements_ok(guess: Seq<char>, masks: Seq<Seq<char>>) -> bool {
    forall|j: int| 0 <= j < masks.len() ==> mask_ok(masks[j], guess)
}

/// Whether a candidate satisfies the whole constraint set: the positional
/// check, the completeness check and the excluded-placement check all pass.
pub open spec fn is_valid_guess(
    state: Seq<char>,
    guess: Seq<char>,
    excluded: Seq<char>,
    unplaced: Seq<char>,
    masks: Seq<Seq<char>>,
) -> bool {
    &&& positions_ok(state, guess, excluded, unplaced)
    &&& unplaced_ok(guess, unplaced)
    &&& placements_ok(guess, masks)
}

/// Whether the word holds the letter `c`.
pub fn word_contains(w: &Vec<char>, c: char) -> (r: bool)
    ensures
        r == w@.contains(c),
{
    let mut i: usize = 0;
    while i < w.len()
        invariant
            i <= w.len(),
            forall|k: int| 0 <= k < i ==> w@[k] != c,
        decreases w.len() - i,
    {
        if w[i] == c {
            return true;
        }
        i = i + 1;
    }
    false
}

/// Check if a guess is valid against the constraint set. All letters are
/// assumed already folded to lower case.
///
/// # Arguments
/// * `state` - the state of the word
/// * `guess` - the guess to check validity for
/// * `excluded_letters` - letters that have already been excluded
/// * `unplaced_letters` - letters that are in the word but have not been placed
/// * `excluded_placements` - placements of letters in `unplaced_letters` that have been excluded
pub fn valid_guess(
    state: &Vec<char>,
    guess: &Vec<char>,
    excluded_letters: &Vec<char>,
    unplaced_letters: &Vec<char>,
    excluded_placements: &Vec<Vec<char>>,
) -> (r: bool)
    ensures
        r == is_valid_guess(
            state@,
            guess@,
            excluded_letters@,
            unplaced_letters@,
            excluded_placements@.map_values(|m: Vec<char>| m@),
        ),
{
    let ghost masks = excluded_placements@.map_values(|m: Vec<char>| m@);
    let mut i: usize = 0;
    while i < state.len() && i < guess.len()
        invariant
            i <= state.len(),
            i <= guess.len(),
            forall|k: int|
                0 <= k < i ==> position_ok(state@[k], guess@[k], excluded_letters@, unplaced_letters@),
        decreases state.len() - i,
    {
        if state[i] == '_' {
            if word_contains(excluded_letters, guess[i]) && !word_contains(
                unplaced_letters,
                guess[i],
            ) {
                return false;
            }
        } else if state[i] != guess[i] {
            return false;
        }
        i = i + 1;
    }
    let mut j: usize = 0;
    while j < unplaced_letters.len()
        invariant
            j <= unplaced_letters.len(),
            forall|k: int| 0 <= k < j ==> guess@.contains(unplaced_letters@[k]),
        decreases unplaced_letters.len() - j,
    {
        if !word_contains(guess, unplaced_letters[j]) {
            return false;
        }
        j = j + 1;
    }
    let mut m: usize = 0;
    while m < excluded_placements.len()
        invariant
            m <= excluded_placements.len(),
            masks == excluded_placements@.map_values(|mk: Vec<char>| mk@),
            forall|k: int| 0 <= k < m ==> mask_ok(masks[k], guess@),
            positions_ok(state@, guess@, excluded_letters@, unplaced_letters@),
            unplaced_ok(guess@, unplaced_letters@),
        decreases excluded_placements.len() - m,
    {
        let mask = &excluded_placements[m];
        let mut i: usize = 0;
        while i < mask.len() && i < guess.len()
            invariant
                i <= mask.len(),
                i <= guess.len(),
                mask@ == masks[m as int],
                m < excluded_placements.len(),
                masks == excluded_placements@.map_values(|mk: Vec<char>| mk@),
                forall|k: int| 0 <= k < i ==> !(mask@[k] != '_' && mask@[k] == guess@[k]),
            decreases mask.len() - i,
        {
            if mask[i] != '_' && mask[i] == guess[i] {
                proof {
                    assert(!mask_ok(masks[m as int], guess@));
                    assert(masks.len() == excluded_placements@.len());
                    assert(!placements_ok(guess@, masks));
                }
                return false;
            }
            i = i + 1;
        }
        m = m + 1;
    }
    true
}

} // verus!
