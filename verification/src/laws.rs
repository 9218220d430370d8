//! General properties of the matcher, the loader and the generator, stated
//! and proved over the same spec functions that the executable functions'
//! contracts use.

use vstd::prelude::*;
use vstd::utf8::{decode_utf8, valid_utf8};
use crate::GenerateError;
use crate::casefold::{lemma_lower_char_idempotent, lemma_lower_seq_idempotent, lower_char,
    lower_seq, upper_seq};
use crate::dictionary::{load_post, split_crlf};
use crate::generator::{generate_post, letters_ok, lower_letters, lower_words, matching_words};
use crate::matcher::{is_valid_guess, mask_ok, position_ok};

verus! {

/// A fully unconstrained set accepts every candidate: under a state of
/// wildcards alone and empty excluded letters, unplaced letters and
/// excluded placements, every word is a valid guess.
pub proof fn lemma_no_constraints_accept_all(state: Seq<char>, w: Seq<char>)
    requires
        forall|i: int| 0 <= i < state.len() ==> state[i] == '_',
    ensures
        is_valid_guess(state, w, Seq::empty(), Seq::empty(), Seq::empty()),
{
    assert forall|i: int| 0 <= i < state.len() && i < w.len() implies position_ok(
        state[i],
        w[i],
        Seq::empty(),
        Seq::empty(),
    ) by {
        assert(!Seq::<char>::empty().contains(w[i]));
    }
}

/// A fully unconstrained generation keeps the whole dictionary: under a
/// state of wildcards alone and empty constraint collections, the matching
/// words are every dictionary word in order, folded to upper case.
pub proof fn lemma_no_constraints_return_dictionary(dict: Seq<Seq<char>>, state: Seq<char>)
    requires
        forall|i: int| 0 <= i < state.len() ==> state[i] == '_',
    ensures
        matching_words(dict, state, Seq::empty(), Seq::empty(), Seq::empty())
            == dict.map_values(|w: Seq<char>| upper_seq(w)),
    decreases dict.len(),
{
    let f = |w: Seq<char>| upper_seq(w);
    if dict.len() == 0 {
        assert(matching_words(dict, state, Seq::empty(), Seq::empty(), Seq::empty())
            =~= dict.map_values(f));
    } else {
        lemma_no_constraints_return_dictionary(dict.drop_last(), state);
        lemma_no_constraints_accept_all(state, dict.last());
        assert(matching_words(dict, state, Seq::empty(), Seq::empty(), Seq::empty())
            == dict.drop_last().map_values(f).push(upper_seq(dict.last())));
        assert(dict.drop_last().map_values(f).push(upper_seq(dict.last())) =~= dict.map_values(
            f,
        ));
    }
}

/// A fully unconstrained request returns the entire dictionary: whatever
/// result the generator's contract admits for a wildcard-only state, empty
/// excluded letters, empty unplaced letters and empty excluded placements
/// over a well-formed buffer is every word of the loaded dictionary in
/// order, folded to upper case.
pub proof fn lemma_no_constraints_generate(
    dict_bytes: Seq<u8>,
    state: Seq<char>,
    r: Result<Seq<Seq<char>>, GenerateError>,
)
    requires
        valid_utf8(dict_bytes),
        forall|i: int| 0 <= i < state.len() ==> state[i] == '_',
        generate_post(dict_bytes, state, Seq::empty(), Seq::empty(), Seq::empty(), r),
    ensures
        r matches Ok(words) && words == split_crlf(decode_utf8(dict_bytes)).map_values(
            |w: Seq<char>| upper_seq(w),
        ),
{
    let folded = lower_seq(state);
    assert forall|i: int| 0 <= i < folded.len() implies folded[i] == '_' by {
        assert(folded[i] == lower_char(state[i]));
    }
    assert(lower_letters(Seq::empty()) =~= Seq::<char>::empty());
    assert(lower_words(Seq::empty()) =~= Seq::<Seq<char>>::empty());
    lemma_no_constraints_return_dictionary(split_crlf(decode_utf8(dict_bytes)), folded);
}

/// A candidate whose letter differs from a concrete state letter at that
/// position is excluded, whatever the other constraints say.
pub proof fn lemma_state_mismatch_excludes(
    state: Seq<char>,
    w: Seq<char>,
    excluded: Seq<char>,
    unplaced: Seq<char>,
    masks: Seq<Seq<char>>,
    i: int,
)
    requires
        0 <= i < state.len(),
        i < w.len(),
        state[i] != '_',
        state[i] != w[i],
    ensures
        !is_valid_guess(state, w, excluded, unplaced, masks),
{
    assert(!position_ok(state[i], w[i], excluded, unplaced));
}

/// A candidate holding an excluded letter at a wildcard position is
/// excluded, unless that letter is also listed as unplaced.
pub proof fn lemma_excluded_letter_excludes(
    state: Seq<char>,
    w: Seq<char>,
    excluded: Seq<char>,
    unplaced: Seq<char>,
    masks: Seq<Seq<char>>,
    i: int,
)
    requires
        0 <= i < state.len(),
        i < w.len(),
        state[i] == '_',
        excluded.contains(w[i]),
        !unplaced.contains(w[i]),
    ensures
        !is_valid_guess(state, w, excluded, unplaced, masks),
{
    assert(!position_ok(state[i], w[i], excluded, unplaced));
}

/// A candidate missing some unplaced letter entirely is excluded.
pub proof fn lemma_missing_unplaced_excludes(
    state: Seq<char>,
    w: Seq<char>,
    excluded: Seq<char>,
    unplaced: Seq<char>,
    masks: Seq<Seq<char>>,
    j: int,
)
    requires
        0 <= j < unplaced.len(),
        !w.contains(unplaced[j]),
    ensures
        !is_valid_guess(state, w, excluded, unplaced, masks),
{
}

/// A candidate whose letter coincides with a non-wildcard mask letter at
/// the same position is excluded, independent of the other masks.
pub proof fn lemma_excluded_placement_excludes(
    state: Seq<char>,
    w: Seq<char>,
    excluded: Seq<char>,
    unplaced: Seq<char>,
    masks: Seq<Seq<char>>,
    j: int,
    i: int,
)
    requires
        0 <= j < masks.len(),
        0 <= i < masks[j].len(),
        i < w.len(),
        masks[j][i] != '_',
        masks[j][i] == w[i],
    ensures
        !is_valid_guess(state, w, excluded, unplaced, masks),
{
    assert(!mask_ok(masks[j], w));
}

/// Folding every entry of a letter collection to lower case keeps each
/// entry's length, so it keeps whether every entry is a single character.
pub proof fn lemma_letters_ok_lower(ls: Seq<Seq<char>>)
    ensures
        letters_ok(lower_words(ls)) == letters_ok(ls),
{
    assert forall|i: int| 0 <= i < ls.len() implies #[trigger] lower_words(ls)[i].len()
        == ls[i].len() by {
        assert(lower_words(ls)[i] == lower_seq(ls[i]));
    }
    if letters_ok(ls) {
        assert forall|i: int| 0 <= i < lower_words(ls).len() implies #[trigger] lower_words(
            ls,
        )[i].len() == 1 by {
            assert(ls[i].len() == 1);
        }
        assert(letters_ok(lower_words(ls)));
    }
    if letters_ok(lower_words(ls)) {
        assert forall|i: int| 0 <= i < ls.len() implies #[trigger] ls[i].len() == 1 by {
            assert(lower_words(ls)[i].len() == 1);
        }
        assert(letters_ok(ls));
    }
}

/// Generation is case-insensitive: folding the state, the letters and the
/// masks of a request to lower case beforehand relates the same results to
/// it as the request itself.
pub proof fn lemma_case_insensitive(
    dict_bytes: Seq<u8>,
    state: Seq<char>,
    excluded: Seq<Seq<char>>,
    unplaced: Seq<Seq<char>>,
    placements: Seq<Seq<char>>,
    r: Result<Seq<Seq<char>>, GenerateError>,
)
    ensures
        generate_post(
            dict_bytes,
            lower_seq(state),
            lower_words(excluded),
            lower_words(unplaced),
            lower_words(placements),
            r,
        ) == generate_post(dict_bytes, state, excluded, unplaced, placements, r),
{
    lemma_letters_ok_lower(excluded);
    lemma_letters_ok_lower(unplaced);
    lemma_lower_seq_idempotent(state);
    if letters_ok(excluded) {
        assert(lower_letters(lower_words(excluded)) =~= lower_letters(excluded)) by {
            assert forall|i: int| 0 <= i < excluded.len() implies lower_letters(
                lower_words(excluded),
            )[i] == lower_letters(excluded)[i] by {
                assert(excluded[i].len() == 1);
                assert(lower_words(excluded)[i][0] == lower_char(excluded[i][0]));
                lemma_lower_char_idempotent(excluded[i][0]);
            }
        }
    }
    if letters_ok(unplaced) {
        assert(lower_letters(lower_words(unplaced)) =~= lower_letters(unplaced)) by {
            assert forall|i: int| 0 <= i < unplaced.len() implies lower_letters(
                lower_words(unplaced),
            )[i] == lower_letters(unplaced)[i] by {
                assert(unplaced[i].len() == 1);
                assert(lower_words(unplaced)[i][0] == lower_char(unplaced[i][0]));
                lemma_lower_char_idempotent(unplaced[i][0]);
            }
        }
    }
    assert(lower_words(lower_words(placements)) =~= lower_words(placements)) by {
        assert forall|i: int| 0 <= i < placements.len() implies lower_words(
            lower_words(placements),
        )[i] == lower_words(placements)[i] by {
            lemma_lower_seq_idempotent(placements[i]);
        }
    }
}

/// Loading is deterministic: two results that the loader's contract admits
/// for the same buffer are equal, pieces and order alike.
pub proof fn lemma_load_deterministic(
    bytes: Seq<u8>,
    r1: Result<Seq<Seq<char>>, GenerateError>,
    r2: Result<Seq<Seq<char>>, GenerateError>,
)
    requires
        load_post(bytes, r1),
        load_post(bytes, r2),
    ensures
        r1 == r2,
{
}

/// Generation is deterministic: two results that the generator's contract
/// admits for the same request are equal, words and order alike.
pub proof fn lemma_generate_deterministic(
    dict_bytes: Seq<u8>,
    state: Seq<char>,
    excluded: Seq<Seq<char>>,
    unplaced: Seq<Seq<char>>,
    placements: Seq<Seq<char>>,
    r1: Result<Seq<Seq<char>>, GenerateError>,
    r2: Result<Seq<Seq<char>>, GenerateError>,
)
    requires
        generate_post(dict_bytes, state, excluded, unplaced, placements, r1),
        generate_post(dict_bytes, state, excluded, unplaced, placements, r2),
    ensures
        r1 == r2,
{
}

} // verus!
