//! Round-trip laws of the file format: a serialized dictionary parses back
//! to the same entries.

use vstd::prelude::*;
use crate::category::{WordType, lemma_tag_round_trip, type_tag};
use crate::format::{dictionary_lines, parse_lines, word_close, word_lines, word_open};
use crate::text::lower_of;
use crate::word::{WordView, all_complete, blank_word};

verus! {

/// No headword and no definition of `d` equals a marker line; such a field
/// would change the shape of the serialized record.
pub open spec fn no_marker_fields(d: Seq<WordView>) -> bool {
    forall|i: int|
        0 <= i < d.len() ==> {
            let w = #[trigger] d[i];
            &&& w.word.unwrap() != word_open()
            &&& w.word.unwrap() != word_close()
            &&& w.def.unwrap() != word_open()
            &&& w.def.unwrap() != word_close()
        }
}

/// No category tag is a marker line.
proof fn lemma_tag_not_marker(t: WordType)
    ensures
        type_tag(t) != word_open(),
        type_tag(t) != word_close(),
{
    reveal_strlit("<word>");
    reveal_strlit("</word>");
    reveal_strlit("n");
    reveal_strlit("v");
    reveal_strlit("adv");
    reveal_strlit("adj");
    reveal_strlit("prep");
    reveal_strlit("pn");
    reveal_strlit("n_and_v");
    reveal_strlit("misc");
    assert("<word>"@.len() == 6 && "<word>"@[0] == '<');
    assert("</word>"@.len() == 7 && "</word>"@[0] == '<');
    assert("n"@.len() == 1);
    assert("v"@.len() == 1);
    assert("adv"@.len() == 3);
    assert("adj"@.len() == 3);
    assert("prep"@.len() == 4);
    assert("pn"@.len() == 2);
    assert("n_and_v"@.len() == 7 && "n_and_v"@[0] == 'n');
    assert("misc"@.len() == 4);
}

/// Parsing the five lines of one complete record takes exactly that record:
/// the record is appended and the buffer is blank again.
proof fn lemma_parse_word_lines(w: WordView, rest: Seq<Seq<char>>, acc: Seq<WordView>)
    requires
        w.complete(),
        w.word.unwrap() != word_open(),
        w.word.unwrap() != word_close(),
        w.def.unwrap() != word_open(),
        w.def.unwrap() != word_close(),
    ensures
        parse_lines(word_lines(w) + rest, blank_word(), acc) == parse_lines(
            rest,
            blank_word(),
            acc.push(w),
        ),
{
    let t = w.word_type.unwrap();
    let hw = w.word.unwrap();
    let df = w.def.unwrap();
    let tg = type_tag(t);
    lemma_tag_not_marker(t);
    lemma_tag_round_trip(t);
    reveal_strlit("<word>");
    reveal_strlit("</word>");
    assert(word_open().len() == 6);
    assert(word_close().len() == 7);
    let l0 = word_lines(w) + rest;
    let l1 = seq![hw, df, tg, word_close()] + rest;
    let l2 = seq![df, tg, word_close()] + rest;
    let l3 = seq![tg, word_close()] + rest;
    let l4 = seq![word_close()] + rest;
    let b1 = WordView { word: Some(hw), word_type: None, def: None };
    let b2 = WordView { word: Some(hw), word_type: None, def: Some(df) };
    assert(l0[0] == word_open());
    assert(l0.drop_first() =~= l1);
    assert(parse_lines(l0, blank_word(), acc) == parse_lines(l1, blank_word(), acc));
    assert(l1[0] == hw);
    assert(l1.drop_first() =~= l2);
    assert(parse_lines(l1, blank_word(), acc) == parse_lines(l2, b1, acc));
    assert(l2[0] == df);
    assert(l2.drop_first() =~= l3);
    assert(parse_lines(l2, b1, acc) == parse_lines(l3, b2, acc));
    assert(l3[0] == tg);
    assert(l3.drop_first() =~= l4);
    assert(parse_lines(l3, b2, acc) == parse_lines(l4, w, acc));
    assert(l4[0] == word_close());
    assert(l4.drop_first() =~= rest);
    assert(parse_lines(l4, w, acc) == parse_lines(rest, blank_word(), acc.push(w)));
}

/// The lines of a concatenation of two dictionaries are the lines of the
/// first followed by the lines of the second.
proof fn lemma_dictionary_lines_concat(a: Seq<WordView>, b: Seq<WordView>)
    ensures
        dictionary_lines(a + b) == dictionary_lines(a) + dictionary_lines(b),
    decreases b.len(),
{
    if b.len() == 0 {
        assert(a + b =~= a);
        assert(dictionary_lines(b) =~= Seq::<Seq<char>>::empty());
        assert(dictionary_lines(a) + dictionary_lines(b) =~= dictionary_lines(a));
    } else {
        lemma_dictionary_lines_concat(a, b.drop_last());
        assert((a + b).drop_last() =~= a + b.drop_last());
        assert((a + b).last() == b.last());
        assert(dictionary_lines(a) + dictionary_lines(b.drop_last()) + word_lines(b.last())
            =~= dictionary_lines(a) + dictionary_lines(b));
    }
}

/// Parsing the lines of a serialized dictionary appends exactly its entries
/// to whatever was taken before, and leaves the buffer blank.
proof fn lemma_parse_dictionary(d: Seq<WordView>, acc: Seq<WordView>)
    requires
        all_complete(d),
        no_marker_fields(d),
    ensures
        parse_lines(dictionary_lines(d), blank_word(), acc) == Some((acc + d, blank_word())),
    decreases d.len(),
{
    if d.len() == 0 {
        assert(dictionary_lines(d).len() == 0);
        assert(acc + d =~= acc);
        assert(parse_lines(dictionary_lines(d), blank_word(), acc) == Some(
            (acc, blank_word()),
        ));
    } else {
        let d0 = d[0];
        let dr = d.drop_first();
        lemma_dictionary_lines_concat(seq![d0], dr);
        assert(seq![d0] + dr =~= d);
        assert(seq![d0].drop_last() =~= Seq::<WordView>::empty());
        assert(dictionary_lines(Seq::<WordView>::empty()) =~= Seq::<Seq<char>>::empty());
        assert(dictionary_lines(seq![d0]) =~= word_lines(d0));
        assert(dictionary_lines(d) == word_lines(d0) + dictionary_lines(dr));
        lemma_parse_word_lines(d0, dictionary_lines(dr), acc);
        assert(forall|i: int| 0 <= i < dr.len() ==> dr[i] == d[i + 1]);
        lemma_parse_dictionary(dr, acc.push(d0));
        assert(acc.push(d0) + dr =~= acc + d);
        assert(parse_lines(dictionary_lines(d), blank_word(), acc) == Some(
            (acc + d, blank_word()),
        ));
    }
}

/// Round trip: serializing a dictionary of complete entries whose headwords
/// and definitions are not marker lines, then parsing the lines back from a
/// fresh state, yields exactly the same entries, in the same order, with a
/// blank final buffer.
pub proof fn lemma_serialize_parse_round_trip(d: Seq<WordView>)
    requires
        all_complete(d),
        no_marker_fields(d),
    ensures
        parse_lines(dictionary_lines(d), blank_word(), Seq::empty()) == Some((d, blank_word())),
{
    lemma_parse_dictionary(d, Seq::empty());
    assert(Seq::empty() + d =~= d);
}

/// Round trip for one created entry: an entry whose headword is the
/// lower-cased `h`, with category `t` and definition `d` — what
/// `create_entry` builds — serializes to five lines that parse back to that
/// very entry: headword `lower_of(h)`, same `t`, same `d`.
pub proof fn lemma_entry_round_trip(h: Seq<char>, t: WordType, d: Seq<char>)
    requires
        lower_of(h) != word_open(),
        lower_of(h) != word_close(),
        d != word_open(),
        d != word_close(),
    ensures
        parse_lines(
            dictionary_lines(seq![WordView::full(lower_of(h), t, d)]),
            blank_word(),
            Seq::empty(),
        ) == Some((seq![WordView::full(lower_of(h), t, d)], blank_word())),
{
    let w = WordView::full(lower_of(h), t, d);
    assert(all_complete(seq![w]));
    assert(no_marker_fields(seq![w]));
    lemma_serialize_parse_round_trip(seq![w]);
}

} // verus!
