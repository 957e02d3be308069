use dict_store::category::{WordType, string_to_type, type_to_string, type_to_tag};
use dict_store::errors::DictError;
use dict_store::format::{add_word, load_from_lines, serialize_dictionary, serialize_lines};
use dict_store::query::{filter_high_frequency_char, find_word, mt3z_words};
use dict_store::word::{Word, create_entry};

fn lines_of(text: &str) -> Vec<String> {
    text.lines().map(|l| l.to_string()).collect()
}

fn sample_dictionary() -> Vec<Word> {
    let lines = vec![
        String::from("<word>"),
        String::from("abide"),
        String::from("to accept"),
        String::from("v"),
        String::from("</word>"),
        String::from("<word>"),
        String::from("razzamatazz"),
        String::from("showy and exciting activity"),
        String::from("n"),
        String::from("</word>"),
        String::from("<word>"),
        String::from("pizza"),
        String::from("a flat bread with toppings"),
        String::from("n"),
        String::from("</word>"),
    ];
    let mut dict: Vec<Word> = Vec::new();
    assert!(load_from_lines(&mut dict, &lines).is_ok());
    dict
}

#[test]
fn word_full_construct() {
    let word_name = String::from("Test");
    let word_type = String::from("n");
    let word_def = String::from("Where something is tested");

    let new_word = Word::new(word_name.as_str(), word_type.as_str(), word_def.as_str());

    assert_eq!(new_word.word.unwrap().as_str(), "test");
    assert_eq!(type_to_string(new_word.word_type.as_ref().unwrap()), "noun");
    assert_eq!(new_word.def.unwrap().as_str(), "Where something is tested");
}

#[test]
fn search_word_success() {
    let test_dict = sample_dictionary();

    let search = "abide";
    let found = match find_word(&test_dict, search) {
        Ok(word) => word.word.as_ref().unwrap().clone(),
        Err(er) => er.message(),
    };

    assert_eq!(search, found);
}

#[test]
fn search_word_fail() {
    let test_dict = sample_dictionary();

    let search = "bannana";
    let found = match find_word(&test_dict, search) {
        Ok(word) => word.word.as_ref().unwrap().clone(),
        Err(er) => er.message(),
    };

    assert_ne!(search, found);
}

#[test]
fn z3word_test() {
    let test_vec = sample_dictionary();

    let zzzret = mt3z_words(&test_vec);

    assert_eq!(zzzret.len(), 1);
    assert_eq!(zzzret.get(0).unwrap(), "razzamatazz");
}

#[test]
fn file_write_test() {
    let mut test_dict = sample_dictionary();

    let new_word = Word::new("Pissing", "v", "Where you piss");
    let text = add_word(&mut test_dict, new_word).unwrap();

    let mut new_dict: Vec<Word> = Vec::new();
    assert!(load_from_lines(&mut new_dict, &lines_of(text.as_str())).is_ok());

    let found = find_word(&new_dict, "Pissing").unwrap();
    assert_eq!(found.word.as_ref().unwrap(), "pissing");
}

#[test]
fn tag_conversions() {
    let cases: Vec<(&str, WordType, &str)> = vec![
        ("n", WordType::Noun, "noun"),
        ("v", WordType::Verb, "verb"),
        ("adv", WordType::Adv, "adverb"),
        ("adj", WordType::Adj, "adjective"),
        ("prep", WordType::Prep, "preposition"),
        ("misc", WordType::Misc, "miscellaneous"),
        ("pn", WordType::PropNoun, "proper noun"),
        ("n_and_v", WordType::NounVerb, "noun and verb"),
    ];
    for (tag, ty, label) in cases {
        assert_eq!(string_to_type(tag).unwrap(), ty);
        assert_eq!(type_to_string(&ty), label);
        assert_eq!(type_to_tag(&ty), tag);
    }
    assert_eq!(string_to_type("xyz").unwrap_err(), DictError::InvalidCategory);
    assert_eq!(string_to_type("Noun").unwrap_err(), DictError::InvalidCategory);
}

#[test]
fn create_entry_lowercases() {
    let entry = create_entry("TeSt", "N", "Definition Case Kept").unwrap();
    assert_eq!(entry.word.as_ref().unwrap(), "test");
    assert_eq!(*entry.word_type.as_ref().unwrap(), WordType::Noun);
    assert_eq!(entry.def.as_ref().unwrap(), "Definition Case Kept");
}

#[test]
fn create_entry_bad_tag() {
    let err = create_entry("test", "xyz", "a definition").unwrap_err();
    assert_eq!(err, DictError::InvalidCategory);
}

#[test]
fn display_format() {
    let word = Word::new("Test", "n", "Where something is tested");
    assert_eq!(word.display(), "\ntest\n[noun]\nWhere something is tested\n");
}

#[test]
fn serialize_exact_text() {
    let mut dict: Vec<Word> = Vec::new();
    dict.push(Word::new("abide", "v", "to accept"));
    assert_eq!(
        serialize_dictionary(&dict),
        "<word>\nabide\nto accept\nv\n</word>\n"
    );
    let lines = serialize_lines(&dict);
    assert_eq!(lines, vec!["<word>", "abide", "to accept", "v", "</word>"]);
}

#[test]
fn entry_round_trip() {
    let mut dict: Vec<Word> = Vec::new();
    dict.push(Word::new("MiXeD", "pn", "A Name"));
    dict.push(Word::new("other", "adj", "something else"));
    let text = serialize_dictionary(&dict);

    let mut reloaded: Vec<Word> = Vec::new();
    assert_eq!(load_from_lines(&mut reloaded, &lines_of(text.as_str())), Ok(2));
    assert_eq!(reloaded.len(), 2);
    assert_eq!(reloaded[0].word.as_ref().unwrap(), "mixed");
    assert_eq!(*reloaded[0].word_type.as_ref().unwrap(), WordType::PropNoun);
    assert_eq!(reloaded[0].def.as_ref().unwrap(), "A Name");
    assert_eq!(reloaded[1].word.as_ref().unwrap(), "other");
    assert_eq!(*reloaded[1].word_type.as_ref().unwrap(), WordType::Adj);
    assert_eq!(reloaded[1].def.as_ref().unwrap(), "something else");
}

#[test]
fn find_is_case_insensitive() {
    let dict = sample_dictionary();
    let found = find_word(&dict, "ABIDE").unwrap();
    assert_eq!(found.word.as_ref().unwrap(), "abide");
    assert_eq!(found.def.as_ref().unwrap(), "to accept");
}

#[test]
fn find_miss_is_not_found() {
    let dict = sample_dictionary();
    assert_eq!(find_word(&dict, "missing").unwrap_err(), DictError::NotFound);

    let empty: Vec<Word> = Vec::new();
    assert_eq!(find_word(&empty, "abide").unwrap_err(), DictError::NotFound);
}

#[test]
fn find_returns_first_match() {
    let mut dict: Vec<Word> = Vec::new();
    dict.push(Word::new("twin", "n", "the first twin"));
    dict.push(Word::new("twin", "v", "the second twin"));
    let found = find_word(&dict, "twin").unwrap();
    assert_eq!(found.def.as_ref().unwrap(), "the first twin");
}

#[test]
fn duplicate_add_rejected() {
    let mut dict = sample_dictionary();
    let before = dict.len();
    let dup = Word::new("ABIDE", "n", "another definition");
    assert_eq!(add_word(&mut dict, dup).unwrap_err(), DictError::DuplicateWord);
    assert_eq!(dict.len(), before);
    let still = find_word(&dict, "abide").unwrap();
    assert_eq!(still.def.as_ref().unwrap(), "to accept");
}

#[test]
fn add_appends_and_serializes_all() {
    let mut dict = sample_dictionary();
    let text = add_word(&mut dict, Word::new("new", "misc", "a new entry")).unwrap();
    assert_eq!(dict.len(), 4);
    assert_eq!(dict[3].word.as_ref().unwrap(), "new");
    assert_eq!(text, serialize_dictionary(&dict));
    assert!(text.starts_with("<word>\nabide\n"));
    assert!(text.ends_with("<word>\nnew\na new entry\nmisc\n</word>\n"));
}

#[test]
fn filter_exactness() {
    let dict = sample_dictionary();
    let result = filter_high_frequency_char(&dict, 'z', 3);
    assert_eq!(result, vec!["razzamatazz"]);

    let at_threshold = filter_high_frequency_char(&dict, 'z', 4);
    assert!(at_threshold.is_empty());

    let lower_threshold = filter_high_frequency_char(&dict, 'z', 1);
    assert_eq!(lower_threshold, vec!["razzamatazz", "pizza"]);

    let other_char = filter_high_frequency_char(&dict, 'a', 2);
    assert_eq!(other_char, vec!["razzamatazz"]);
}

#[test]
fn empty_load_fails() {
    let mut dict: Vec<Word> = Vec::new();
    let no_lines: Vec<String> = Vec::new();
    assert_eq!(
        load_from_lines(&mut dict, &no_lines).unwrap_err(),
        DictError::NoRecordsLoaded
    );
    assert!(dict.is_empty());

    let stray_only = vec![String::from("just some text"), String::from("no markers here")];
    assert_eq!(
        load_from_lines(&mut dict, &stray_only).unwrap_err(),
        DictError::NoRecordsLoaded
    );
    assert!(dict.is_empty());
}

#[test]
fn malformed_category_fails_whole_load() {
    let lines = vec![
        String::from("<word>"),
        String::from("abide"),
        String::from("to accept"),
        String::from("v"),
        String::from("</word>"),
        String::from("<word>"),
        String::from("broken"),
        String::from("a bad record"),
        String::from("xyz"),
        String::from("</word>"),
    ];
    let mut dict: Vec<Word> = Vec::new();
    assert_eq!(
        load_from_lines(&mut dict, &lines).unwrap_err(),
        DictError::InvalidCategory
    );
    assert!(dict.is_empty());
}

#[test]
fn unterminated_record_dropped() {
    let lines = vec![
        String::from("<word>"),
        String::from("kept"),
        String::from("a finished record"),
        String::from("n"),
        String::from("</word>"),
        String::from("<word>"),
        String::from("dropped"),
        String::from("never closed"),
    ];
    let mut dict: Vec<Word> = Vec::new();
    assert_eq!(load_from_lines(&mut dict, &lines), Ok(1));
    assert_eq!(dict.len(), 1);
    assert_eq!(dict[0].word.as_ref().unwrap(), "kept");
}

#[test]
fn incomplete_record_appended() {
    let lines = vec![
        String::from("<word>"),
        String::from("lonely"),
        String::from("</word>"),
    ];
    let mut dict: Vec<Word> = Vec::new();
    assert_eq!(load_from_lines(&mut dict, &lines), Ok(1));
    assert_eq!(dict[0].word.as_ref().unwrap(), "lonely");
    assert!(dict[0].def.is_none());
    assert!(dict[0].word_type.is_none());
}

#[test]
fn extra_lines_of_full_record_dropped() {
    let lines = vec![
        String::from("<word>"),
        String::from("full"),
        String::from("a definition"),
        String::from("n"),
        String::from("this line is ignored"),
        String::from("so is this one"),
        String::from("</word>"),
    ];
    let mut dict: Vec<Word> = Vec::new();
    assert_eq!(load_from_lines(&mut dict, &lines), Ok(1));
    assert_eq!(dict.len(), 1);
    assert_eq!(dict[0].word.as_ref().unwrap(), "full");
    assert_eq!(dict[0].def.as_ref().unwrap(), "a definition");
}

#[test]
fn load_appends_to_existing() {
    let mut dict = sample_dictionary();
    let lines = vec![
        String::from("<word>"),
        String::from("extra"),
        String::from("one more"),
        String::from("adv"),
        String::from("</word>"),
    ];
    assert_eq!(load_from_lines(&mut dict, &lines), Ok(4));
    assert_eq!(dict.len(), 4);
    assert_eq!(dict[3].word.as_ref().unwrap(), "extra");
}

#[test]
fn error_messages() {
    assert_eq!(DictError::FileUnreadable.message(), "File could not be loaded");
    assert_eq!(DictError::InvalidCategory.message(), "Invalid input");
    assert_eq!(DictError::NoRecordsLoaded.message(), "No objects loaded");
    assert_eq!(DictError::NotFound.message(), "Word not found");
    assert_eq!(DictError::DuplicateWord.message(), "Word already exists");
    assert_eq!(DictError::WriteFailed.message(), "Failed to create new dict file");
}
