//! The guess generator: normalizes caller input, loads the dictionary,
//! filters the candidates through the constraint matcher and returns the
//! matching words.
//!
//! Letter entries of the request must hold exactly one character each;
//! anything else is rejected as malformed. The state, the letters and the
//! excluded-placement masks are folded to lower case before matching, and
//! the matching words are returned folded to upper case, in dictionary
//! order.

use vstd::prelude::*;
use vstd::utf8::{decode_utf8, valid_utf8};
use crate::GenerateError;
use crate::casefold::{lower_char, lower_seq, upper_seq, to_lower_char, to_lower_word,
    to_upper_word};
use crate::dictionary::{Dictionary, load_dict, split_crlf, word_to_vec, words_view};
use crate::matcher::{is_valid_guess, valid_guess};

verus! {

/// Relies on `String::push`: it appends the given character to the end of
/// the string.
pub assume_specification[ String::push ](s: &mut String, ch: char)
    ensures
        final(s)@ == old(s)@.push(ch),
;

/// The character sequences of a collection of strings.
pub open spec fn strings_view(v: Seq<String>) -> Seq<Seq<char>> {
    v.map_values(|s: String| s@)
}

/// Whether every letter entry holds exactly one character.
pub open spec fn letters_ok(ls: Seq<Seq<char>>) -> bool {
    forall|i: int| 0 <= i < ls.len() ==> ls[i].len() == 1
}

/// The single characters of the letter entries, folded to lower case.
pub open spec fn lower_letters(ls: Seq<Seq<char>>) -> Seq<char> {
    ls.map_values(|l: Seq<char>| lower_char(l[0]))
}

/// A collection of words, each folded to lower case.
pub open spec fn lower_words(ws: Seq<Seq<char>>) -> Seq<Seq<char>> {
    ws.map_values(|w: Seq<char>| lower_seq(w))
}

/// The words of the dictionary that satisfy the constraint set, in
/// dictionary order, each folded to upper case.
pub open spec fn matching_words(
    dict: Seq<Seq<char>>,
    state: Seq<char>,
    excluded: Seq<char>,
    unplaced: Seq<char>,
    masks: Seq<Seq<char>>,
) -> Seq<Seq<char>>
    decreases dict.len(),
{
    if dict.len() == 0 {
        Seq::empty()
    } else {
        let rest = matching_words(dict.drop_last(), state, excluded, unplaced, masks);
        if is_valid_guess(state, dict.last(), excluded, unplaced, masks) {
            rest.push(upper_seq(dict.last()))
        } else {
            rest
        }
    }
}

/// What a generation call returns, as a relation between its inputs and its
/// result. A request with a letter entry of more or less than one character
/// is malformed; otherwise a dictionary buffer that is not valid UTF-8 is a
/// decode failure; otherwise the call succeeds with exactly the matching
/// words of the dictionary, under constraints folded to lower case.
pub open spec fn generate_post(
    dict_bytes: Seq<u8>,
    state: Seq<char>,
    excluded: Seq<Seq<char>>,
    unplaced: Seq<Seq<char>>,
    placements: Seq<Seq<char>>,
    r: Result<Seq<Seq<char>>, GenerateError>,
) -> bool {
    if !(letters_ok(excluded) && letters_ok(unplaced)) {
        r == Result::<Seq<Seq<char>>, GenerateError>::Err(GenerateError::MalformedInput)
    } else if !valid_utf8(dict_bytes) {
        r == Result::<Seq<Seq<char>>, GenerateError>::Err(GenerateError::DecodeError)
    } else {
        r matches Ok(words) && words == matching_words(
            split_crlf(decode_utf8(dict_bytes)),
            lower_seq(state),
            lower_letters(excluded),
            lower_letters(unplaced),
            lower_words(placements),
        )
    }
}

/// The result of a generation call with its words taken as character
/// sequences.
pub open spec fn result_view(r: Result<Vec<String>, GenerateError>) -> Result<
    Seq<Seq<char>>,
    GenerateError,
> {
    match r {
        Ok(v) => Ok(strings_view(v@)),
        Err(e) => Err(e),
    }
}

/// Fold the letter entries to lower case as single characters; `None` when
/// some entry does not hold exactly one character.
fn lower_letter_vec(ls: &Vec<String>) -> (r: Option<Vec<char>>)
    ensures
        r is Some <==> letters_ok(strings_view(ls@)),
        r matches Some(v) ==> v@ == lower_letters(strings_view(ls@)),
{
    let mut r: Vec<char> = Vec::new();
    let mut i: usize = 0;
    while i < ls.len()
        invariant
            i <= ls.len(),
            forall|k: int| 0 <= k < i ==> strings_view(ls@)[k].len() == 1,
            r@ =~= lower_letters(strings_view(ls@).subrange(0, i as int)),
        decreases ls.len() - i,
    {
        let w = word_to_vec(ls[i].as_str());
        if w.len() != 1 {
            proof {
                assert(strings_view(ls@)[i as int].len() != 1);
                assert(!letters_ok(strings_view(ls@)));
            }
            return None;
        }
        r.push(to_lower_char(w[0]));
        i = i + 1;
        proof {
            assert(strings_view(ls@).subrange(0, i as int).drop_last() =~= strings_view(
                ls@,
            ).subrange(0, i - 1));
        }
    }
    proof {
        assert(strings_view(ls@).subrange(0, ls@.len() as int) =~= strings_view(ls@));
    }
    Some(r)
}

/// Fold each word of a collection to lower case.
fn lower_word_vec(ws: &Vec<String>) -> (r: Vec<Vec<char>>)
    ensures
        words_view(r@) == lower_words(strings_view(ws@)),
{
    let mut r: Vec<Vec<char>> = Vec::new();
    let mut i: usize = 0;
    while i < ws.len()
        invariant
            i <= ws.len(),
            words_view(r@) =~~= lower_words(strings_view(ws@).subrange(0, i as int)),
        decreases ws.len() - i,
    {
        let w = word_to_vec(ws[i].as_str());
        let ghost old_r = r@;
        r.push(to_lower_word(&w));
        i = i + 1;
        proof {
            assert(strings_view(ws@).subrange(0, i as int).drop_last() =~= strings_view(
                ws@,
            ).subrange(0, i - 1));
            assert(words_view(r@) =~~= words_view(old_r).push(lower_seq(ws@[i - 1]@)));
            assert(lower_words(strings_view(ws@).subrange(0, i as int)) =~~= lower_words(
                strings_view(ws@).subrange(0, i - 1),
            ).push(lower_seq(strings_view(ws@)[i - 1])));
            assert(words_view(r@) =~~= lower_words(strings_view(ws@).subrange(0, i as int)));
        }
    }
    proof {
        assert(strings_view(ws@).subrange(0, ws@.len() as int) =~= strings_view(ws@));
    }
    r
}

/// Join a word into a string, folded to upper case.
fn word_to_string_upper(w: &Vec<char>) -> (r: String)
    ensures
        r@ == upper_seq(w@),
{
    let up = to_upper_word(w);
    let mut s = String::new();
    let mut i: usize = 0;
    while i < up.len()
        invariant
            i <= up.len(),
            up@ == upper_seq(w@),
            s@ =~= up@.subrange(0, i as int),
        decreases up.len() - i,
    {
        s.push(up[i]);
        i = i + 1;
    }
    proof {
        assert(up@.subrange(0, up@.len() as int) =~= up@);
    }
    s
}

/// Generate a vector of valid guesses from the given dictionary buffer
/// # Arguments
/// * `dict_file` - contents of the word-list resource to draw guesses from
/// * `state` - State of the guess
/// * `excluded_letters` - letters that have already been excluded
/// * `unplaced_letters` - letters that are in the word but have not been placed
/// * `excluded_placements` - placements of letters in `unplaced_letters` that have been excluded
pub fn generate_guesses(
    dict_file: Vec<u8>,
    state: String,
    excluded_letters: Vec<String>,
    unplaced_letters: Vec<String>,
    excluded_placements: Vec<String>,
) -> (r: Result<Vec<String>, GenerateError>)
    ensures
        generate_post(
            dict_file@,
            state@,
            strings_view(excluded_letters@),
            strings_view(unplaced_letters@),
            strings_view(excluded_placements@),
            result_view(r),
        ),
{
    let excluded = match lower_letter_vec(&excluded_letters) {
        Some(v) => v,
        None => {
            return Err(GenerateError::MalformedInput);
        },
    };
    let unplaced = match lower_letter_vec(&unplaced_letters) {
        Some(v) => v,
        None => {
            return Err(GenerateError::MalformedInput);
        },
    };
    let state_word = word_to_vec(state.as_str());
    let format_state = to_lower_word(&state_word);
    let masks = lower_word_vec(&excluded_placements);
    let dict: Dictionary = match load_dict(dict_file) {
        Ok(d) => d,
        Err(_) => {
            return Err(GenerateError::DecodeError);
        },
    };
    let ghost dict_words = words_view(dict@);
    let ghost mask_words = words_view(masks@);
    let mut out: Vec<String> = Vec::new();
    let mut i: usize = 0;
    while i < dict.len()
        invariant
            i <= dict.len(),
            dict_words == words_view(dict@),
            mask_words == words_view(masks@),
            strings_view(out@) =~~= matching_words(
                dict_words.subrange(0, i as int),
                format_state@,
                excluded@,
                unplaced@,
                mask_words,
            ),
        decreases dict.len() - i,
    {
        proof {
            assert(dict_words.subrange(0, i + 1).drop_last() =~= dict_words.subrange(
                0,
                i as int,
            ));
            assert(dict_words.subrange(0, i + 1).last() == dict@[i as int]@);
        }
        if valid_guess(&format_state, &dict[i], &excluded, &unplaced, &masks) {
            let joined = word_to_string_upper(&dict[i]);
            out.push(joined);
        }
        i = i + 1;
        proof {
            assert(strings_view(out@) =~~= matching_words(
                dict_words.subrange(0, i as int),
                format_state@,
                excluded@,
                unplaced@,
                mask_words,
            ));
        }
    }
    proof {
        assert(dict_words.subrange(0, dict_words.len() as int) =~= dict_words);
    }
    Ok(out)
}

} // verus!
