use wordle_solver::casefold::{to_lower_word, to_upper_word};
use wordle_solver::dictionary::{load_dict, word_to_vec};
use wordle_solver::generate_guesses;
use wordle_solver::matcher::valid_guess;
use wordle_solver::GenerateError;

fn strings(words: &[&str]) -> Vec<String> {
    words.iter().map(|w| w.to_string()).collect()
}

#[test]
fn test_generate_guesses() {
    let dict_file = b"crane\r\ncaine\r\ncrate\r\nplane".to_vec();
    let state = String::from("C__NE");
    let excluded_letters = vec![
        "D".to_string(),
        "E".to_string(),
        "U".to_string(),
        "O".to_string(),
        "G".to_string(),
    ];
    let unplaced_letters = vec!["A".to_string()];
    let excluded_placements = vec!["_A__".to_string()];
    let gussess = generate_guesses(
        dict_file,
        state,
        excluded_letters,
        unplaced_letters,
        excluded_placements,
    )
    .unwrap();
    println!("{:?}", gussess);
}

#[test]
fn test_known_pattern_with_placement_mask() {
    // State C__NE: the word must start with C and end with NE; A is present
    // but not at position 1; D, E, U, O and G are marked absent. CAINE is
    // rejected by the placement mask alone, CRATE by the state, PLANE by
    // its first letter. E at position 4 is demanded by the state even
    // though it is listed as excluded: the state match takes precedence.
    let dict_file = b"crane\r\ncaine\r\ncrate\r\nplane".to_vec();
    let result = generate_guesses(
        dict_file,
        String::from("C__NE"),
        strings(&["D", "E", "U", "O", "G"]),
        strings(&["A"]),
        strings(&["_A__"]),
    )
    .unwrap();
    assert_eq!(result, vec!["CRANE".to_string()]);
}

#[test]
fn test_first_letter_known_unplaced_required() {
    // State C____ with I present somewhere and A, D, E, U, O, R, G absent:
    // every returned word starts with C, holds an I and none of the absent
    // letters.
    let dict_file = b"click\r\ncivic\r\ncrane\r\nbingo\r\nchill".to_vec();
    let result = generate_guesses(
        dict_file,
        String::from("C____"),
        strings(&["A", "D", "E", "U", "O", "R", "G"]),
        strings(&["I"]),
        strings(&[]),
    )
    .unwrap();
    assert_eq!(
        result,
        vec!["CLICK".to_string(), "CIVIC".to_string(), "CHILL".to_string()]
    );
    for word in &result {
        assert!(word.starts_with('C'));
        assert!(word.contains('I'));
        for c in ['A', 'D', 'E', 'U', 'O', 'R', 'G'] {
            assert!(!word.contains(c));
        }
    }
}

#[test]
fn test_case_insensitive_requests() {
    let dict_file = b"crane\r\nchill".to_vec();
    let upper = generate_guesses(
        dict_file.clone(),
        String::from("C____"),
        strings(&["A"]),
        strings(&[]),
        strings(&[]),
    )
    .unwrap();
    let lower = generate_guesses(
        dict_file,
        String::from("c____"),
        strings(&["a"]),
        strings(&[]),
        strings(&[]),
    )
    .unwrap();
    assert_eq!(upper, lower);
    assert_eq!(upper, vec!["CHILL".to_string()]);
}

#[test]
fn test_no_constraints_return_whole_dictionary() {
    let dict_file = b"apple\r\nzebra\r\nquilt".to_vec();
    let result = generate_guesses(
        dict_file,
        String::from("_____"),
        strings(&[]),
        strings(&[]),
        strings(&[]),
    )
    .unwrap();
    assert_eq!(
        result,
        vec!["APPLE".to_string(), "ZEBRA".to_string(), "QUILT".to_string()]
    );
}

#[test]
fn test_excluded_letter_allowed_when_also_unplaced() {
    // A letter marked absent at one position and present at another may
    // still appear at a wildcard position.
    let dict_file = b"align\r\nbliss".to_vec();
    let result = generate_guesses(
        dict_file,
        String::from("_____"),
        strings(&["A"]),
        strings(&["A"]),
        strings(&[]),
    )
    .unwrap();
    assert_eq!(result, vec!["ALIGN".to_string()]);
}

#[test]
fn test_load_dict_twice_identical() {
    let bytes = b"ab\r\ncd\r\nef".to_vec();
    let first = load_dict(bytes.clone()).unwrap();
    let second = load_dict(bytes).unwrap();
    assert_eq!(first, second);
    assert_eq!(
        first,
        vec![vec!['a', 'b'], vec!['c', 'd'], vec!['e', 'f']]
    );
}

#[test]
fn test_generate_twice_identical() {
    let dict_file = b"crane\r\ncaine".to_vec();
    let first = generate_guesses(
        dict_file.clone(),
        String::from("C__NE"),
        strings(&["D"]),
        strings(&["A"]),
        strings(&["_A__"]),
    )
    .unwrap();
    let second = generate_guesses(
        dict_file,
        String::from("C__NE"),
        strings(&["D"]),
        strings(&["A"]),
        strings(&["_A__"]),
    )
    .unwrap();
    assert_eq!(first, second);
}

#[test]
fn test_invalid_utf8_is_decode_error() {
    let dict_file = vec![0xff, 0xfe, 0xfd];
    let result = generate_guesses(
        dict_file.clone(),
        String::from("_____"),
        strings(&[]),
        strings(&[]),
        strings(&[]),
    );
    assert_eq!(result, Err(GenerateError::DecodeError));
    assert_eq!(load_dict(dict_file), Err(GenerateError::DecodeError));
}

#[test]
fn test_letter_entries_must_be_single_characters() {
    let dict_file = b"crane".to_vec();
    let two_letters = generate_guesses(
        dict_file.clone(),
        String::from("_____"),
        strings(&["ab"]),
        strings(&[]),
        strings(&[]),
    );
    assert_eq!(two_letters, Err(GenerateError::MalformedInput));
    let empty_letter = generate_guesses(
        dict_file,
        String::from("_____"),
        strings(&[]),
        strings(&[""]),
        strings(&[]),
    );
    assert_eq!(empty_letter, Err(GenerateError::MalformedInput));
}

#[test]
fn test_multibyte_text_decodes_to_characters() {
    // "café" as UTF-8: the last two bytes form one character.
    let bytes = vec![b'c', b'a', b'f', 0xc3, 0xa9];
    let dict = load_dict(bytes).unwrap();
    assert_eq!(dict, vec![vec!['c', 'a', 'f', 'é']]);
}

#[test]
fn test_word_to_vec_decomposes() {
    assert_eq!(word_to_vec("hello"), vec!['h', 'e', 'l', 'l', 'o']);
    assert_eq!(word_to_vec(""), Vec::<char>::new());
}

#[test]
fn test_empty_buffer_is_one_empty_word() {
    let dict = load_dict(Vec::new()).unwrap();
    assert_eq!(dict, vec![Vec::<char>::new()]);
    let trailing = load_dict(b"ab\r\n".to_vec()).unwrap();
    assert_eq!(trailing, vec![vec!['a', 'b'], Vec::<char>::new()]);
}

#[test]
fn test_valid_guess_checks() {
    let state = vec!['c', '_', '_', 'n', 'e'];
    let excluded = vec!['d', 'u', 'o', 'g'];
    let unplaced = vec!['a'];
    let masks = vec![vec!['_', 'a', '_', '_']];
    let crane = vec!['c', 'r', 'a', 'n', 'e'];
    let caine = vec!['c', 'a', 'i', 'n', 'e'];
    let crate_word = vec!['c', 'r', 'a', 't', 'e'];
    let cargo = vec!['c', 'a', 'r', 'g', 'o'];
    assert!(valid_guess(&state, &crane, &excluded, &unplaced, &masks));
    assert!(!valid_guess(&state, &caine, &excluded, &unplaced, &masks));
    assert!(!valid_guess(&state, &crate_word, &excluded, &unplaced, &masks));
    assert!(!valid_guess(&state, &cargo, &excluded, &unplaced, &masks));
}

#[test]
fn test_case_folding_words() {
    let mixed = vec!['C', 'r', 'A', '_', '9'];
    assert_eq!(to_lower_word(&mixed), vec!['c', 'r', 'a', '_', '9']);
    assert_eq!(to_upper_word(&mixed), vec!['C', 'R', 'A', '_', '9']);
}
