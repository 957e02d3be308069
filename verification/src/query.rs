//! Queries over an in-memory dictionary: case-insensitive lookup and the
//! character-frequency filter.

use vstd::prelude::*;
use crate::errors::DictError;
use crate::text::{char_count, count_char, lower_of, lowercase, str_eq};
use crate::word::{Word, WordView, all_headwords_set, dict_view};

verus! {

/// Whether some entry of `d` has `q` as its headword.
pub open spec fn has_headword(d: Seq<WordView>, q: Seq<char>) -> bool {
    exists|i: int| 0 <= i < d.len() && (#[trigger] d[i]).word == Some(q)
}

/// Looks the lower-cased query up by a linear scan, returning the first
/// entry whose headword equals it, or `NotFound` when none does.
pub fn find_word<'a>(dict: &'a Vec<Word>, search: &str) -> (r: Result<&'a Word, DictError>)
    requires
        all_headwords_set(dict_view(dict@)),
    ensures
        match r {
            Ok(w) => exists|i: int|
                0 <= i < dict@.len() && *w == dict@[i] && (#[trigger] dict_view(dict@)[i]).word
                    == Some(lower_of(search@)) && (forall|j: int|
                    0 <= j < i ==> (#[trigger] dict_view(dict@)[j]).word != Some(
                        lower_of(search@),
                    )),
            Err(e) => e == DictError::NotFound && !has_headword(
                dict_view(dict@),
                lower_of(search@),
            ),
        },
{
    let search_str = lowercase(search);
    let n = dict.len();
    let mut i: usize = 0;
    while i < n
        invariant
            n == dict@.len(),
            i <= n,
            all_headwords_set(dict_view(dict@)),
            search_str@ == lower_of(search@),
            forall|j: int|
                0 <= j < i ==> (#[trigger] dict_view(dict@)[j]).word != Some(lower_of(search@)),
        decreases n - i,
    {
        let dict_word = &dict[i];
        proof {
            assert(dict_view(dict@)[i as int] == dict@[i as int]@);
        }
        if str_eq(dict_word.word.as_ref().unwrap().as_str(), search_str.as_str()) {
            proof {
                assert(dict_view(dict@)[i as int].word == Some(lower_of(search@)));
            }
            return Ok(dict_word);
        }
        i = i + 1;
    }
    Err(DictError::NotFound)
}

/// The headwords of `d` in which `c` occurs strictly more than `threshold`
/// times, in dictionary order.
pub open spec fn high_frequency_headwords(d: Seq<WordView>, c: char, threshold: nat) -> Seq<
    Seq<char>,
>
    decreases d.len(),
{
    if d.len() == 0 {
        Seq::empty()
    } else {
        let rest = high_frequency_headwords(d.drop_last(), c, threshold);
        let w = d.last();
        if w.word is Some && char_count(w.word.unwrap(), c) > threshold {
            rest.push(w.word.unwrap())
        } else {
            rest
        }
    }
}

/// Returns the headwords in which `target` occurs strictly more than
/// `threshold` times, in dictionary order.
pub fn filter_high_frequency_char(dict: &Vec<Word>, target: char, threshold: usize) -> (r: Vec<
    String,
>)
    requires
        all_headwords_set(dict_view(dict@)),
    ensures
        r.deep_view() == high_frequency_headwords(dict_view(dict@), target, threshold as nat),
{
    let mut ret_vec: Vec<String> = Vec::new();
    let n = dict.len();
    let mut i: usize = 0;
    while i < n
        invariant
            n == dict@.len(),
            i <= n,
            all_headwords_set(dict_view(dict@)),
            ret_vec.deep_view() == high_frequency_headwords(
                dict_view(dict@).take(i as int),
                target,
                threshold as nat,
            ),
        decreases n - i,
    {
        let ghost prefix = dict_view(dict@).take(i as int);
        let dict_word = &dict[i];
        proof {
            assert(dict_view(dict@)[i as int] == dict@[i as int]@);
        }
        let headword = dict_word.word.as_ref().unwrap();
        let c_count = count_char(headword.as_str(), target);
        if c_count > threshold {
            ret_vec.push(headword.clone());
        }
        i = i + 1;
        proof {
            let next = dict_view(dict@).take(i as int);
            assert(next.drop_last() =~= prefix);
            assert(next.last() == dict_view(dict@)[i - 1]);
            assert(ret_vec.deep_view() =~= high_frequency_headwords(
                next,
                target,
                threshold as nat,
            ));
        }
    }
    proof {
        assert(dict_view(dict@).take(n as int) =~= dict_view(dict@));
    }
    ret_vec
}

/// Returns the headwords that hold more than three occurrences of the letter
/// z, in dictionary order.
pub fn mt3z_words(dict: &Vec<Word>) -> (r: Vec<String>)
    requires
        all_headwords_set(dict_view(dict@)),
    ensures
        r.deep_view() == high_frequency_headwords(dict_view(dict@), 'z', 3),
{
    filter_high_frequency_char(dict, 'z', 3)
}

} // verus!
