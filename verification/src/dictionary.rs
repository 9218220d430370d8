//! The dictionary loader: parses a newline-delimited word list into a
//! sequence of per-word letter sequences.
//!
//! The word list is handed in as a byte buffer holding UTF-8 text whose
//! lines are separated by a carriage-return+linefeed delimiter. The loader
//! fails exactly when the buffer is not valid UTF-8; it does not validate
//! word lengths or character sets, lines are passed through as they stand.

use vstd::prelude::*;
use vstd::string::StrSliceExecFns;
use vstd::utf8::{decode_utf8, valid_utf8};
use crate::GenerateError;

verus! {

/// The dictionary for guess checking: an ordered collection of words, each
/// word an ordered sequence of its letters.
pub type Dictionary = Vec<Vec<char>>;

/// The letter sequences of a collection of words.
pub open spec fn words_view(d: Seq<Vec<char>>) -> Seq<Seq<char>> {
    d.map_values(|w: Vec<char>| w@)
}

/// The text split at each non-overlapping occurrence of the two-character
/// carriage-return+linefeed delimiter, scanning left to right. The result
/// always holds at least one piece; text without the delimiter is a single
/// piece, and a trailing delimiter yields a trailing empty piece.
pub open spec fn split_crlf(s: Seq<char>) -> Seq<Seq<char>>
    decreases s.len(),
{
    if s.len() >= 2 && s[0] == '\r' && s[1] == '\n' {
        seq![Seq::<char>::empty()] + split_crlf(s.skip(2))
    } else if s.len() == 0 {
        seq![Seq::<char>::empty()]
    } else {
        let rest = split_crlf(s.skip(1));
        seq![seq![s[0]] + rest[0]] + rest.skip(1)
    }
}

/// The split of any text holds at least one piece.
pub proof fn lemma_split_crlf_len(s: Seq<char>)
    ensures
        split_crlf(s).len() >= 1,
    decreases s.len(),
{
    if s.len() >= 2 && s[0] == '\r' && s[1] == '\n' {
        lemma_split_crlf_len(s.skip(2));
    } else if s.len() > 0 {
        lemma_split_crlf_len(s.skip(1));
    }
}

/// Relies on `String::from_utf8`: it returns `Ok` exactly when the bytes
/// are valid UTF-8, and then the string's characters are the decoding of
/// those bytes.
#[verifier::external_body]
fn bytes_to_string(bytes: Vec<u8>) -> (r: Option<String>)
    ensures
        r is Some <==> valid_utf8(bytes@),
        r matches Some(s) ==> s@ == decode_utf8(bytes@),
{
    String::from_utf8(bytes).ok()
}

/// Decompose word string into vector of the letters in the word
///
/// Text of ASCII characters alone is read byte by byte; any other text is
/// read character by character.
///
/// # Arguments
/// * `word` - word to decompose
pub fn word_to_vec(word: &str) -> (r: Vec<char>)
    ensures
        r@ == word@,
{
    if word.is_ascii() {
        proof {
            vstd::string::is_ascii_spec_bytes(word);
        }
        let bytes = word.as_bytes();
        let mut r: Vec<char> = Vec::new();
        let mut i: usize = 0;
        while i < bytes.len()
            invariant
                bytes@.len() == word@.len(),
                forall|k: int| 0 <= k < word@.len() ==> bytes@[k] == word@[k] as u8,
                vstd::utf8::is_ascii_chars(word@),
                i <= bytes.len(),
                r@ =~= word@.subrange(0, i as int),
            decreases bytes.len() - i,
        {
            let c = bytes[i] as char;
            proof {
                assert(word@[i as int] as u32 <= 127);
                vstd::utf8::char_u32_cast(word@[i as int], word@[i as int] as u32);
                assert((word@[i as int] as u8) as char == word@[i as int]);
            }
            r.push(c);
            i = i + 1;
        }
        proof {
            assert(word@.subrange(0, word@.len() as int) =~= word@);
        }
        r
    } else {
        let n = word.unicode_len();
        let mut r: Vec<char> = Vec::new();
        let mut i: usize = 0;
        while i < n
            invariant
                n == word@.len(),
                i <= n,
                r@ =~= word@.subrange(0, i as int),
            decreases n - i,
        {
            r.push(word.get_char(i));
            i = i + 1;
        }
        assert(word@.subrange(0, n as int) =~= word@);
        r
    }
}

/// What one scanning step leaves to be split: the pieces already completed,
/// then the piece under construction joined to the first piece of the split
/// of the remaining text, then the remaining pieces of that split.
spec fn split_state(acc: Seq<Seq<char>>, cur: Seq<char>, rest: Seq<char>) -> Seq<Seq<char>> {
    acc + seq![cur + split_crlf(rest)[0]] + split_crlf(rest).skip(1)
}

/// Split a text into the pieces between carriage-return+linefeed delimiters.
pub fn split_words(text: &Vec<char>) -> (r: Vec<Vec<char>>)
    ensures
        words_view(r@) == split_crlf(text@),
{
    let mut acc: Vec<Vec<char>> = Vec::new();
    let mut cur: Vec<char> = Vec::new();
    let mut i: usize = 0;
    proof {
        assert(text@.skip(0) =~= text@);
        lemma_split_crlf_len(text@);
        assert(words_view(acc@) =~= Seq::<Seq<char>>::empty());
        assert(split_state(words_view(acc@), cur@, text@) =~~= split_crlf(text@));
    }
    while i < text.len()
        invariant
            i <= text.len(),
            split_crlf(text@) == split_state(words_view(acc@), cur@, text@.skip(i as int)),
        decreases text.len() - i,
    {
        let ghost rest = text@.skip(i as int);
        if i + 1 < text.len() && text[i] == '\r' && text[i + 1] == '\n' {
            proof {
                assert(rest.len() >= 2 && rest[0] == '\r' && rest[1] == '\n');
                assert(rest.skip(2) =~= text@.skip(i + 2));
                assert(split_crlf(rest) == seq![Seq::<char>::empty()] + split_crlf(
                    text@.skip(i + 2),
                ));
                lemma_split_crlf_len(text@.skip(i + 2));
            }
            let ghost old_acc = acc@;
            let ghost old_cur = cur@;
            acc.push(cur);
            cur = Vec::new();
            proof {
                assert(old_cur + split_crlf(rest)[0] =~= old_cur);
                assert(words_view(acc@) =~~= words_view(old_acc).push(old_cur));
                assert(split_state(words_view(acc@), Seq::<char>::empty(), text@.skip(i + 2))
                    =~~= split_crlf(text@));
            }
            i = i + 2;
        } else {
            proof {
                assert(!(rest.len() >= 2 && rest[0] == '\r' && rest[1] == '\n'));
                assert(rest.len() > 0);
                assert(rest.skip(1) =~= text@.skip(i + 1));
                let tail = split_crlf(text@.skip(i + 1));
                assert(split_crlf(rest) == seq![seq![rest[0]] + tail[0]] + tail.skip(1));
                lemma_split_crlf_len(text@.skip(i + 1));
                assert(split_state(words_view(acc@), cur@.push(text@[i as int]), text@.skip(
                    i + 1,
                )) =~~= split_crlf(text@));
            }
            let c = text[i];
            cur.push(c);
            i = i + 1;
        }
    }
    proof {
        assert(text@.skip(i as int) =~= Seq::<char>::empty());
        assert(split_crlf(Seq::<char>::empty()) == seq![Seq::<char>::empty()]);
    }
    let ghost old_acc = acc@;
    acc.push(cur);
    proof {
        assert(words_view(acc@) =~~= words_view(old_acc).push(cur@));
        assert(split_state(words_view(old_acc), cur@, Seq::<char>::empty()) =~~= words_view(
            old_acc,
        ).push(cur@));
        assert(words_view(acc@) =~~= split_crlf(text@));
    }
    acc
}

/// What a load returns, as a relation between the buffer and the result: a
/// buffer of valid UTF-8 loads to exactly its decoded text split at each
/// carriage-return+linefeed delimiter, and any other buffer is a decode
/// failure.
pub open spec fn load_post(bytes: Seq<u8>, r: Result<Seq<Seq<char>>, GenerateError>) -> bool {
    if valid_utf8(bytes) {
        r matches Ok(d) && d == split_crlf(decode_utf8(bytes))
    } else {
        r == Result::<Seq<Seq<char>>, GenerateError>::Err(GenerateError::DecodeError)
    }
}

/// The result of a load with its words taken as character sequences.
pub open spec fn dict_result_view(r: Result<Dictionary, GenerateError>) -> Result<
    Seq<Seq<char>>,
    GenerateError,
> {
    match r {
        Ok(d) => Ok(words_view(d@)),
        Err(e) => Err(e),
    }
}

/// Loads and returns dictionary from the given word-list buffer
///
/// # Arguments
/// * `dict_file` - dictionary file contents to load
pub fn load_dict(dict_file: Vec<u8>) -> (r: Result<Dictionary, GenerateError>)
    ensures
        load_post(dict_file@, dict_result_view(r)),
{
    match bytes_to_string(dict_file) {
        None => Err(GenerateError::DecodeError),
        Some(text) => {
            let chars = word_to_vec(text.as_str());
            Ok(split_words(&chars))
        },
    }
}

} // verus!
