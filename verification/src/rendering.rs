//! The text that spells a list of records, and the proof that reading it
//! gives the records back.

use vstd::prelude::*;
use crate::error::StoreError;
use crate::records::{is_whitespace, is_word, records_of, split_record, tokens, word_len};
use crate::store_map::{
    lemma_store_of_absent, lemma_store_of_last, lookup, parsed_store, store_of,
};

verus! {

/// A record that can be written down: neither part holds whitespace, and the
/// identifier holds no `:`.
pub open spec fn is_writable(record: (Seq<char>, Seq<char>)) -> bool {
    is_word(record.0) && is_word(record.1) && !record.0.contains(':')
}

/// The token that spells a record.
pub open spec fn record_text(record: (Seq<char>, Seq<char>)) -> Seq<char> {
    record.0 + seq![':'] + record.1
}

/// The text that spells the records in turn, a space behind each.
pub open spec fn records_text(records: Seq<(Seq<char>, Seq<char>)>) -> Seq<char>
    decreases records.len(),
{
    if records.len() == 0 {
        Seq::empty()
    } else {
        record_text(records[0]) + seq![' '] + records_text(records.drop_first())
    }
}

/// A word in front of whitespace, or at the end, is read whole.
pub proof fn lemma_word_len_of_word(word: Seq<char>, rest: Seq<char>)
    requires
        is_word(word),
        rest.len() == 0 || is_whitespace(rest[0]),
    ensures
        word_len(word + rest) == word.len(),
    decreases word.len(),
{
    if word.len() > 0 {
        assert((word + rest).drop_first() =~= word.drop_first() + rest);
        assert(is_word(word.drop_first()));
        lemma_word_len_of_word(word.drop_first(), rest);
    }
}

/// A word and a space in front of a text add one token to its tokens.
pub proof fn lemma_tokens_of_word_and_rest(word: Seq<char>, rest: Seq<char>)
    requires
        is_word(word),
        word.len() > 0,
    ensures
        tokens(word + seq![' '] + rest) == seq![word] + tokens(rest),
{
    let text = word + seq![' '] + rest;
    let tail = seq![' '] + rest;
    assert(text =~= word + tail);
    lemma_word_len_of_word(word, tail);
    assert(text.take(word.len() as int) =~= word);
    assert(text.skip(word.len() as int) =~= tail);
    assert(tokens(text) == seq![word] + tokens(tail));
    assert(tail.drop_first() =~= rest);
}

/// The token of a writable record splits into that record.
pub proof fn lemma_split_record_text(record: (Seq<char>, Seq<char>))
    requires
        !record.0.contains(':'),
    ensures
        split_record(record_text(record)) == Some(record),
{
    let token = record_text(record);
    let at = record.0.len() as int;
    token.index_of_first_ensures(':');
    assert(token[at] == ':');
}

/// Reading what was written gives the records back, in their order.
pub proof fn lemma_records_of_records_text(records: Seq<(Seq<char>, Seq<char>)>)
    requires
        forall|i: int| 0 <= i < records.len() ==> is_writable(#[trigger] records[i]),
    ensures
        tokens(records_text(records)) == Seq::new(records.len(), |i: int| record_text(records[i])),
        records_of(tokens(records_text(records))) == Some(records),
        parsed_store(records_text(records)) == Some(store_of(records)),
    decreases records.len(),
{
    let spelled = Seq::new(records.len(), |i: int| record_text(records[i]));
    if records.len() > 0 {
        let rest = records.drop_first();
        lemma_records_of_records_text(rest);
        lemma_tokens_of_word_and_rest(record_text(records[0]), records_text(rest));
    }
    assert forall|i: int| 0 <= i < spelled.len() implies split_record(#[trigger] spelled[i])
        == Some(records[i]) by {
        lemma_split_record_text(records[i]);
    }
    assert(records_of(spelled).unwrap() =~= records);
}

/// Looking an identifier up in what was written gives the secret of the last
/// record that carries it.
pub proof fn lemma_lookup_in_records_text(
    records: Seq<(Seq<char>, Seq<char>)>,
    id: Seq<char>,
    i: int,
)
    requires
        forall|j: int| 0 <= j < records.len() ==> is_writable(#[trigger] records[j]),
        0 <= i < records.len(),
        records[i].0 == id,
        forall|j: int| i < j < records.len() ==> records[j].0 != id,
    ensures
        lookup(records_text(records), id) == Ok::<Seq<char>, StoreError>(records[i].1),
{
    lemma_records_of_records_text(records);
    lemma_store_of_last(records, id, i);
}

/// Looking up an identifier that no written record carries finds nothing.
pub proof fn lemma_lookup_absent_in_records_text(
    records: Seq<(Seq<char>, Seq<char>)>,
    id: Seq<char>,
)
    requires
        forall|j: int| 0 <= j < records.len() ==> is_writable(#[trigger] records[j]),
        forall|j: int| 0 <= j < records.len() ==> records[j].0 != id,
    ensures
        lookup(records_text(records), id) == Err::<Seq<char>, StoreError>(StoreError::NotFound),
{
    lemma_records_of_records_text(records);
    lemma_store_of_absent(records, id);
}

} // verus!
