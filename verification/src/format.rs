//! The line-oriented record format: parsing the lines of a dictionary file
//! into entries, serializing a dictionary back into lines, and the add
//! operation that rejects duplicate headwords before extending and
//! re-serializing the dictionary.

use vstd::prelude::*;
use crate::category::{string_to_type, tag_to_type, type_tag, type_to_tag};
use crate::errors::DictError;
use crate::query::has_headword;
use crate::text::{lower_of, str_eq};
use crate::word::{Word, WordView, all_complete, all_headwords_set, blank_word, dict_view};

verus! {

/// The marker line that starts a record.
pub open spec fn word_open() -> Seq<char> {
    "<word>"@
}

/// The marker line that ends a record.
pub open spec fn word_close() -> Seq<char> {
    "</word>"@
}

/// How a load reads `lines` with the record buffer `buf` and the records
/// `acc` already taken: an opening marker resets the buffer, a closing
/// marker appends the buffer as it stands, any other line fills the first
/// unset field, in the order headword, definition, category; a line for the
/// category field whose tag is outside the enumeration fails the whole load
/// (`None`); a line of a full record outside that order is dropped. The
/// result holds the records taken and the final, unappended buffer.
pub open spec fn parse_lines(
    lines: Seq<Seq<char>>,
    buf: WordView,
    acc: Seq<WordView>,
) -> Option<(Seq<WordView>, WordView)>
    decreases lines.len(),
{
    if lines.len() == 0 {
        Some((acc, buf))
    } else {
        let lin = lines[0];
        let rest = lines.drop_first();
        if lin == word_open() {
            parse_lines(rest, blank_word(), acc)
        } else if lin == word_close() {
            parse_lines(rest, blank_word(), acc.push(buf))
        } else if buf.word is None {
            parse_lines(
                rest,
                WordView { word: Some(lin), word_type: buf.word_type, def: buf.def },
                acc,
            )
        } else if buf.def is None {
            parse_lines(
                rest,
                WordView { word: buf.word, word_type: buf.word_type, def: Some(lin) },
                acc,
            )
        } else if buf.word_type is None {
            match tag_to_type(lin) {
                Some(t) => parse_lines(
                    rest,
                    WordView { word: buf.word, word_type: Some(t), def: buf.def },
                    acc,
                ),
                None => None,
            }
        } else {
            parse_lines(rest, buf, acc)
        }
    }
}

/// Parses the lines of a dictionary file and appends the records read to
/// `dict`. A tag outside the enumeration fails the whole load with
/// `InvalidCategory` and leaves `dict` unchanged; a load after which the
/// dictionary is still empty fails with `NoRecordsLoaded`; otherwise the
/// total number of entries now held is returned.
pub fn load_from_lines(dict: &mut Vec<Word>, lines: &Vec<String>) -> (r: Result<i32, DictError>)
    requires
        old(dict)@.len() + lines@.len() <= i32::MAX as int,
    ensures
        match parse_lines(lines.deep_view(), blank_word(), Seq::empty()) {
            Some(parsed) => if old(dict)@.len() + parsed.0.len() > 0 {
                &&& r is Ok
                &&& r.unwrap() as int == old(dict)@.len() + parsed.0.len()
                &&& final(dict)@.len() == old(dict)@.len() + parsed.0.len()
                &&& dict_view(final(dict)@) == dict_view(old(dict)@) + parsed.0
            } else {
                r == Err::<i32, DictError>(DictError::NoRecordsLoaded) && *final(dict) == *old(dict)
            },
            None => r == Err::<i32, DictError>(DictError::InvalidCategory) && *final(dict) == *old(
                dict,
            ),
        },
{
    let ghost all_lines = lines.deep_view();
    let mut parsed: Vec<Word> = Vec::new();
    let mut word_buf: Word = Word::new_blank();
    let n = lines.len();
    let mut idx: usize = 0;
    proof {
        assert(all_lines.skip(0) =~= all_lines);
        assert(dict_view(parsed@) =~= Seq::empty());
    }
    while idx < n
        invariant
            n == lines@.len(),
            idx <= n,
            all_lines == lines.deep_view(),
            parsed@.len() <= idx,
            parse_lines(all_lines, blank_word(), Seq::empty()) == parse_lines(
                all_lines.skip(idx as int),
                word_buf@,
                dict_view(parsed@),
            ),
        decreases n - idx,
    {
        let ghost rest = all_lines.skip(idx as int);
        let ghost buf0 = word_buf@;
        let ghost acc0 = dict_view(parsed@);
        let lin = &lines[idx];
        proof {
            assert(rest[0] == all_lines[idx as int]);
            assert(rest.drop_first() =~= all_lines.skip(idx as int + 1));
        }
        if str_eq(lin.as_str(), "<word>") {
            word_buf = Word::new_blank();
        } else if str_eq(lin.as_str(), "</word>") {
            parsed.push(word_buf);
            word_buf = Word::new_blank();
            proof {
                assert(dict_view(parsed@) =~= acc0.push(buf0));
            }
        } else if word_buf.word.is_none() {
            word_buf.word = Some(lin.clone());
        } else if word_buf.def.is_none() {
            word_buf.def = Some(lin.clone());
        } else if word_buf.word_type.is_none() {
            match string_to_type(lin.as_str()) {
                Ok(t) => {
                    word_buf.word_type = Some(t);
                },
                Err(e) => {
                    proof {
                        assert(parse_lines(rest, buf0, acc0) is None);
                    }
                    return Err(e);
                },
            }
        }
        idx = idx + 1;
        proof {
            assert(parse_lines(rest, buf0, acc0) == parse_lines(
                all_lines.skip(idx as int),
                word_buf@,
                dict_view(parsed@),
            ));
        }
    }
    proof {
        assert(all_lines.skip(n as int).len() == 0);
    }
    if dict.len() + parsed.len() > 0 {
        let ghost old_dict = dict@;
        let ghost new_words = parsed@;
        dict.append(&mut parsed);
        proof {
            assert(dict_view(dict@) =~= dict_view(old_dict) + dict_view(new_words));
        }
        let total = dict.len();
        Ok(total as i32)
    } else {
        Err(DictError::NoRecordsLoaded)
    }
}

/// The five lines a complete record is written as: the opening marker, the
/// headword, the definition, the category tag, the closing marker.
pub open spec fn word_lines(w: WordView) -> Seq<Seq<char>>
    recommends
        w.complete(),
{
    seq![
        word_open(),
        w.word.unwrap(),
        w.def.unwrap(),
        type_tag(w.word_type.unwrap()),
        word_close(),
    ]
}

/// The lines a whole dictionary is written as, in dictionary order.
pub open spec fn dictionary_lines(d: Seq<WordView>) -> Seq<Seq<char>>
    decreases d.len(),
{
    if d.len() == 0 {
        Seq::empty()
    } else {
        dictionary_lines(d.drop_last()) + word_lines(d.last())
    }
}

/// The text of a file holding the given lines: each line followed by a
/// newline.
pub open spec fn join_lines(lines: Seq<Seq<char>>) -> Seq<char>
    decreases lines.len(),
{
    if lines.len() == 0 {
        Seq::empty()
    } else {
        join_lines(lines.drop_last()) + lines.last() + "\n"@
    }
}

/// Serializes a dictionary of complete entries into the lines of the file
/// format.
pub fn serialize_lines(dict: &Vec<Word>) -> (r: Vec<String>)
    requires
        all_complete(dict_view(dict@)),
    ensures
        r.deep_view() == dictionary_lines(dict_view(dict@)),
{
    let mut out: Vec<String> = Vec::new();
    let n = dict.len();
    let mut i: usize = 0;
    while i < n
        invariant
            n == dict@.len(),
            i <= n,
            all_complete(dict_view(dict@)),
            out.deep_view() == dictionary_lines(dict_view(dict@).take(i as int)),
        decreases n - i,
    {
        let ghost prefix = dict_view(dict@).take(i as int);
        let wrd = &dict[i];
        proof {
            assert(dict_view(dict@)[i as int] == dict@[i as int]@);
        }
        out.push(String::from_str("<word>"));
        out.push(wrd.word.as_ref().unwrap().clone());
        out.push(wrd.def.as_ref().unwrap().clone());
        out.push(type_to_tag(wrd.word_type.as_ref().unwrap()));
        out.push(String::from_str("</word>"));
        i = i + 1;
        proof {
            let next = dict_view(dict@).take(i as int);
            assert(next.drop_last() =~= prefix);
            assert(next.last() == dict_view(dict@)[i - 1]);
            assert(out.deep_view() =~= dictionary_lines(prefix) + word_lines(
                dict_view(dict@)[i - 1],
            ));
        }
    }
    proof {
        assert(dict_view(dict@).take(n as int) =~= dict_view(dict@));
    }
    out
}

/// Joins lines into one text, a newline after each line.
fn join(lines: &Vec<String>) -> (r: String)
    ensures
        r@ == join_lines(lines.deep_view()),
{
    let mut out = String::new();
    let n = lines.len();
    let mut i: usize = 0;
    while i < n
        invariant
            n == lines@.len(),
            i <= n,
            out@ == join_lines(lines.deep_view().take(i as int)),
        decreases n - i,
    {
        let ghost prefix = lines.deep_view().take(i as int);
        out.append(lines[i].as_str());
        out.append("\n");
        i = i + 1;
        proof {
            let next = lines.deep_view().take(i as int);
            assert(next.drop_last() =~= prefix);
            assert(next.last() == lines.deep_view()[i - 1]);
        }
    }
    proof {
        assert(lines.deep_view().take(n as int) =~= lines.deep_view());
    }
    out
}

/// Serializes a dictionary of complete entries into the full text of a
/// dictionary file.
pub fn serialize_dictionary(dict: &Vec<Word>) -> (r: String)
    requires
        all_complete(dict_view(dict@)),
    ensures
        r@ == join_lines(dictionary_lines(dict_view(dict@))),
{
    let lines = serialize_lines(dict);
    join(&lines)
}

/// Adds an entry to the dictionary unless its headword (lower-cased) is
/// already present, and returns the full serialized text of the extended
/// dictionary, for the caller to persist. When the headword is already
/// present the add fails with `DuplicateWord` and the dictionary is
/// unchanged; the entry is appended before the caller ever writes, so a
/// failed write leaves the appended entry in memory.
pub fn add_word(dict: &mut Vec<Word>, in_word: Word) -> (r: Result<String, DictError>)
    requires
        all_complete(dict_view(old(dict)@)),
        in_word@.complete(),
    ensures
        has_headword(dict_view(old(dict)@), lower_of(in_word@.word.unwrap())) ==> r == Err::<
            String,
            DictError,
        >(DictError::DuplicateWord) && *final(dict) == *old(dict),
        !has_headword(dict_view(old(dict)@), lower_of(in_word@.word.unwrap())) ==> {
            &&& final(dict)@ == old(dict)@.push(in_word)
            &&& r is Ok
            &&& r.unwrap()@ == join_lines(dictionary_lines(dict_view(final(dict)@)))
        },
{
    proof {
        assert(all_headwords_set(dict_view(dict@)));
    }
    let duplicate = crate::query::find_word(dict, in_word.word.as_ref().unwrap().as_str()).is_ok();
    if duplicate {
        return Err(DictError::DuplicateWord);
    }
    let ghost old_view = dict_view(dict@);
    dict.push(in_word);
    proof {
        assert(dict_view(dict@) =~= old_view.push(in_word@));
    }
    let write_str = serialize_dictionary(dict);
    Ok(write_str)
}

} // verus!
