//! The dictionary entry type: a headword, a category, a definition.

use vstd::prelude::*;
use vstd::pervasive::unreached;
use crate::category::{WordType, string_to_type, type_to_string, tag_to_type, type_label};
use crate::errors::DictError;
use crate::text::{lower_of, lowercase};

verus! {

/// One dictionary record. Each field is optional because a record is filled
/// line by line during a load, and a load appends a record when its closing
/// marker is met even if some fields are still unset.
#[derive(Debug)]
pub struct Word {
    pub word: Option<String>,
    pub word_type: Option<WordType>,
    pub def: Option<String>,
}

/// The mathematical model of a `Word`: each text field as its character
/// sequence.
pub struct WordView {
    pub word: Option<Seq<char>>,
    pub word_type: Option<WordType>,
    pub def: Option<Seq<char>>,
}

impl View for Word {
    type V = WordView;

    open spec fn view(&self) -> WordView {
        WordView {
            word: match self.word {
                Some(s) => Some(s@),
                None => None,
            },
            word_type: self.word_type,
            def: match self.def {
                Some(s) => Some(s@),
                None => None,
            },
        }
    }
}

impl WordView {
    /// All three fields of the record are set.
    pub open spec fn complete(self) -> bool {
        self.word is Some && self.word_type is Some && self.def is Some
    }

    /// The model of a fully populated record.
    pub open spec fn full(w: Seq<char>, t: WordType, d: Seq<char>) -> WordView {
        WordView { word: Some(w), word_type: Some(t), def: Some(d) }
    }
}

/// The model of a record with no field set.
pub open spec fn blank_word() -> WordView {
    WordView { word: None, word_type: None, def: None }
}

/// The models of the entries of a dictionary, in order.
pub open spec fn dict_view(d: Seq<Word>) -> Seq<WordView> {
    d.map_values(|w: Word| w@)
}

/// Every entry of the dictionary has its headword set.
pub open spec fn all_headwords_set(d: Seq<WordView>) -> bool {
    forall|i: int| 0 <= i < d.len() ==> (#[trigger] d[i]).word is Some
}

/// Every entry of the dictionary is complete.
pub open spec fn all_complete(d: Seq<WordView>) -> bool {
    forall|i: int| 0 <= i < d.len() ==> (#[trigger] d[i]).complete()
}

/// What `Word::display` returns: the headword, the category label in
/// brackets, and the definition, each on a line of its own.
pub open spec fn display_text(w: WordView) -> Seq<char>
    recommends
        w.complete(),
{
    "\n"@ + w.word.unwrap() + "\n["@ + type_label(w.word_type.unwrap()) + "]\n"@ + w.def.unwrap()
        + "\n"@
}

impl Word {
    /// Builds a fully populated entry: the headword and the tag are
    /// lower-cased, the definition keeps its case. The lower-cased tag must
    /// be one of the fixed enumeration; `create_entry` checks that first.
    pub fn new(word_in: &str, word_type_in: &str, def_in: &str) -> (r: Word)
        requires
            tag_to_type(lower_of(word_type_in@)) is Some,
        ensures
            r@ == WordView::full(
                lower_of(word_in@),
                tag_to_type(lower_of(word_type_in@)).unwrap(),
                def_in@,
            ),
    {
        let str_word_in = lowercase(word_in);
        let str_word_type = lowercase(word_type_in);
        let str_word_def = String::from_str(def_in);
        match string_to_type(str_word_type.as_str()) {
            Ok(t) => Word { word: Some(str_word_in), word_type: Some(t), def: Some(str_word_def) },
            Err(_) => unreached(),
        }
    }

    /// An entry with no field set, the buffer a load starts a record from.
    pub fn new_blank() -> (r: Word)
        ensures
            r@ == blank_word(),
    {
        Word { word: None, word_type: None, def: None }
    }

    /// The text a complete entry is displayed as.
    pub fn display(&self) -> (r: String)
        requires
            self@.complete(),
        ensures
            r@ == display_text(self@),
    {
        let mut out = String::new();
        out.append("\n");
        out.append(self.word.as_ref().unwrap().as_str());
        out.append("\n[");
        let label = type_to_string(self.word_type.as_ref().unwrap());
        out.append(label.as_str());
        out.append("]\n");
        out.append(self.def.as_ref().unwrap().as_str());
        out.append("\n");
        proof {
            assert(out@ =~= display_text(self@));
        }
        out
    }
}

/// Builds an entry from raw text: the headword and the tag are lower-cased
/// first; a tag outside the fixed enumeration is an `InvalidCategory` error
/// and no entry is made.
pub fn create_entry(headword: &str, category_tag: &str, definition: &str) -> (r: Result<
    Word,
    DictError,
>)
    ensures
        match r {
            Ok(w) => tag_to_type(lower_of(category_tag@)) is Some && w@ == WordView::full(
                lower_of(headword@),
                tag_to_type(lower_of(category_tag@)).unwrap(),
                definition@,
            ),
            Err(e) => tag_to_type(lower_of(category_tag@)) is None && e
                == DictError::InvalidCategory,
        },
{
    let lowered_tag = lowercase(category_tag);
    match string_to_type(lowered_tag.as_str()) {
        Ok(_) => Ok(Word::new(headword, category_tag, definition)),
        Err(e) => Err(e),
    }
}

} // verus!
