//! The fixed, closed set of part-of-speech categories and its mapping to and
//! from the short tag strings of the file format and the display labels.

use vstd::prelude::*;
use crate::errors::DictError;
use crate::text::str_eq;

verus! {

/// The part-of-speech category of a dictionary entry.
#[derive(Clone, Copy, Debug, PartialEq, Eq, Structural)]
pub enum WordType {
    Noun,
    Verb,
    Adv,
    Adj,
    Prep,
    Misc,
    PropNoun,
    NounVerb,
}

/// The category a tag string stands for, or `None` when the tag is outside
/// the fixed enumeration.
pub open spec fn tag_to_type(s: Seq<char>) -> Option<WordType> {
    if s == "n"@ {
        Some(WordType::Noun)
    } else if s == "v"@ {
        Some(WordType::Verb)
    } else if s == "adv"@ {
        Some(WordType::Adv)
    } else if s == "adj"@ {
        Some(WordType::Adj)
    } else if s == "prep"@ {
        Some(WordType::Prep)
    } else if s == "pn"@ {
        Some(WordType::PropNoun)
    } else if s == "n_and_v"@ {
        Some(WordType::NounVerb)
    } else if s == "misc"@ {
        Some(WordType::Misc)
    } else {
        None
    }
}

/// The short tag written for a category in the file format.
pub open spec fn type_tag(t: WordType) -> Seq<char> {
    match t {
        WordType::Noun => "n"@,
        WordType::Verb => "v"@,
        WordType::Adv => "adv"@,
        WordType::Adj => "adj"@,
        WordType::Prep => "prep"@,
        WordType::Misc => "misc"@,
        WordType::PropNoun => "pn"@,
        WordType::NounVerb => "n_and_v"@,
    }
}

/// The display label of a category.
pub open spec fn type_label(t: WordType) -> Seq<char> {
    match t {
        WordType::Noun => "noun"@,
        WordType::Verb => "verb"@,
        WordType::Adv => "adverb"@,
        WordType::Adj => "adjective"@,
        WordType::Prep => "preposition"@,
        WordType::Misc => "miscellaneous"@,
        WordType::PropNoun => "proper noun"@,
        WordType::NounVerb => "noun and verb"@,
    }
}

/// Converts a tag string to its category; a tag outside the enumeration is
/// an `InvalidCategory` error.
pub fn string_to_type(str_in: &str) -> (r: Result<WordType, DictError>)
    ensures
        match r {
            Ok(t) => tag_to_type(str_in@) == Some(t),
            Err(e) => tag_to_type(str_in@) is None && e == DictError::InvalidCategory,
        },
{
    if str_eq(str_in, "n") {
        Ok(WordType::Noun)
    } else if str_eq(str_in, "v") {
        Ok(WordType::Verb)
    } else if str_eq(str_in, "adv") {
        Ok(WordType::Adv)
    } else if str_eq(str_in, "adj") {
        Ok(WordType::Adj)
    } else if str_eq(str_in, "prep") {
        Ok(WordType::Prep)
    } else if str_eq(str_in, "pn") {
        Ok(WordType::PropNoun)
    } else if str_eq(str_in, "n_and_v") {
        Ok(WordType::NounVerb)
    } else if str_eq(str_in, "misc") {
        Ok(WordType::Misc)
    } else {
        Err(DictError::InvalidCategory)
    }
}

/// Converts a category to its display label.
pub fn type_to_string(type_in: &WordType) -> (r: String)
    ensures
        r@ == type_label(*type_in),
{
    match type_in {
        WordType::Noun => String::from_str("noun"),
        WordType::Verb => String::from_str("verb"),
        WordType::Adv => String::from_str("adverb"),
        WordType::Adj => String::from_str("adjective"),
        WordType::Prep => String::from_str("preposition"),
        WordType::Misc => String::from_str("miscellaneous"),
        WordType::PropNoun => String::from_str("proper noun"),
        WordType::NounVerb => String::from_str("noun and verb"),
    }
}

/// Converts a category to the short tag written in the file format.
pub fn type_to_tag(type_in: &WordType) -> (r: String)
    ensures
        r@ == type_tag(*type_in),
{
    match type_in {
        WordType::Noun => String::from_str("n"),
        WordType::Verb => String::from_str("v"),
        WordType::Adv => String::from_str("adv"),
        WordType::Adj => String::from_str("adj"),
        WordType::Prep => String::from_str("prep"),
        WordType::Misc => String::from_str("misc"),
        WordType::PropNoun => String::from_str("pn"),
        WordType::NounVerb => String::from_str("n_and_v"),
    }
}

/// Reading a category's own tag back gives the category: the tag and the
/// enumeration are a bijection.
pub proof fn lemma_tag_round_trip(t: WordType)
    ensures
        tag_to_type(type_tag(t)) == Some(t),
{
    reveal_strlit("n");
    reveal_strlit("v");
    reveal_strlit("adv");
    reveal_strlit("adj");
    reveal_strlit("prep");
    reveal_strlit("pn");
    reveal_strlit("n_and_v");
    reveal_strlit("misc");
    assert("n"@.len() == 1 && "n"@[0] == 'n');
    assert("v"@.len() == 1 && "v"@[0] == 'v');
    assert("adv"@.len() == 3 && "adv"@[0] == 'a' && "adv"@[2] == 'v');
    assert("adj"@.len() == 3 && "adj"@[0] == 'a' && "adj"@[2] == 'j');
    assert("prep"@.len() == 4 && "prep"@[0] == 'p');
    assert("pn"@.len() == 2 && "pn"@[0] == 'p');
    assert("n_and_v"@.len() == 7 && "n_and_v"@[0] == 'n');
    assert("misc"@.len() == 4 && "misc"@[0] == 'm');
}

} // verus!
