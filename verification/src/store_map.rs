//! The mapping from identifier to secret that a decrypted store spells, and
//! the lookup of one identifier in it.

use vstd::prelude::*;
use vstd::string::StrSliceExecFns;
use crate::error::StoreError;
use crate::records::{
    chars_of, find_colon, is_separator, lemma_tokens_skip_whitespace, lemma_tokens_take_word,
    records_of, split_record, tokens, word_end,
};

verus! {

/// The mapping that a list of records builds up when each is inserted in
/// turn: of two records with one identifier the later one stays.
pub open spec fn store_of(records: Seq<(Seq<char>, Seq<char>)>) -> Map<Seq<char>, Seq<char>>
    decreases records.len(),
{
    if records.len() == 0 {
        Map::empty()
    } else {
        store_of(records.drop_last()).insert(records.last().0, records.last().1)
    }
}

/// The mapping that a plaintext spells; `None` where one of its
/// whitespace-separated tokens lacks a `:`.
pub open spec fn parsed_store(text: Seq<char>) -> Option<Map<Seq<char>, Seq<char>>> {
    match records_of(tokens(text)) {
        Some(records) => Some(store_of(records)),
        None => None,
    }
}

/// The outcome of looking `id` up in the store that `text` spells.
pub open spec fn lookup(text: Seq<char>, id: Seq<char>) -> Result<Seq<char>, StoreError> {
    match parsed_store(text) {
        None => Err(StoreError::MalformedStore),
        Some(store) => if store.contains_key(id) {
            Ok(store[id])
        } else {
            Err(StoreError::NotFound)
        },
    }
}

/// One token without `:` makes every lookup fail with `MalformedStore`,
/// whatever the other tokens hold and whichever identifier is asked for.
pub proof fn lemma_token_without_colon_is_malformed(text: Seq<char>, id: Seq<char>, i: int)
    requires
        0 <= i < tokens(text).len(),
        !tokens(text)[i].contains(':'),
    ensures
        lookup(text, id) == Err::<Seq<char>, StoreError>(StoreError::MalformedStore),
{
    tokens(text)[i].index_of_first_ensures(':');
    assert(split_record(tokens(text)[i]) is None);
}

/// An identifier is mapped to the secret of the last record that carries it.
pub proof fn lemma_store_of_last(records: Seq<(Seq<char>, Seq<char>)>, id: Seq<char>, i: int)
    requires
        0 <= i < records.len(),
        records[i].0 == id,
        forall|j: int| i < j < records.len() ==> records[j].0 != id,
    ensures
        store_of(records).contains_key(id),
        store_of(records)[id] == records[i].1,
    decreases records.len(),
{
    if i < records.len() - 1 {
        lemma_store_of_last(records.drop_last(), id, i);
    }
}

/// An identifier that no record carries is not mapped.
pub proof fn lemma_store_of_absent(records: Seq<(Seq<char>, Seq<char>)>, id: Seq<char>)
    requires
        forall|j: int| 0 <= j < records.len() ==> records[j].0 != id,
    ensures
        !store_of(records).contains_key(id),
    decreases records.len(),
{
    if records.len() > 0 {
        lemma_store_of_absent(records.drop_last(), id);
    }
}

/// The identifiers and secrets of one store.
pub struct StoreMap {
    entries: Vec<(String, String)>,
}

impl StoreMap {
    /// The records in the order of their insertion.
    pub closed spec fn records(&self) -> Seq<(Seq<char>, Seq<char>)> {
        Seq::new(self.entries@.len(), |i: int| (self.entries@[i].0@, self.entries@[i].1@))
    }

    /// The store without any record.
    pub fn new() -> (store: StoreMap)
        ensures
            store@ == Map::<Seq<char>, Seq<char>>::empty(),
    {
        StoreMap { entries: Vec::new() }
    }

    /// Maps `identifier` to `secret`, in place of what it was mapped to.
    pub fn insert(&mut self, identifier: String, secret: String)
        ensures
            final(self)@ == old(self)@.insert(identifier@, secret@),
    {
        self.entries.push((identifier, secret));
        assert(self.records().drop_last() =~= old(self).records());
    }

    /// The secret that `identifier` is mapped to, if any.
    pub fn get(&self, identifier: &str) -> (res: Option<&str>)
        ensures
            match res {
                Some(secret) => self@.contains_key(identifier@) && self@[identifier@] == secret@,
                None => !self@.contains_key(identifier@),
            },
    {
        let wanted: String = identifier.to_owned();
        let mut i: usize = self.entries.len();
        while i > 0
            invariant
                i <= self.entries@.len(),
                wanted@ == identifier@,
                forall|j: int| i <= j < self.records().len() ==> self.records()[j].0 != wanted@,
            decreases i,
        {
            i = i - 1;
            if self.entries[i].0 == wanted {
                proof {
                    lemma_store_of_last(self.records(), wanted@, i as int);
                }
                return Some(self.entries[i].1.as_str());
            }
        }
        proof {
            lemma_store_of_absent(self.records(), wanted@);
        }
        None
    }
}

impl View for StoreMap {
    type V = Map<Seq<char>, Seq<char>>;

    closed spec fn view(&self) -> Map<Seq<char>, Seq<char>> {
        store_of(self.records())
    }
}

/// Reads a plaintext into the mapping it spells.
///
/// Fails with `MalformedStore` exactly when a token lacks its `:`; one such
/// token invalidates the whole store.
pub fn parse_store(text: &str) -> (res: Result<StoreMap, StoreError>)
    ensures
        match res {
            Ok(store) => parsed_store(text@) == Some(store@),
            Err(e) => e == StoreError::MalformedStore && parsed_store(text@) is None,
        },
{
    let chars = chars_of(text);
    let n: usize = chars.len();
    let mut store = StoreMap::new();
    let mut i: usize = 0;
    let ghost mut done: Seq<Seq<char>> = Seq::empty();
    assert(text@.skip(0) =~= text@);
    while i < n
        invariant
            i <= n,
            n == chars@.len(),
            chars@ == text@,
            tokens(text@) == done + tokens(text@.skip(i as int)),
            records_of(done) matches Some(records) && store@ == store_of(records),
        decreases n - i,
    {
        if is_separator(chars[i]) {
            proof {
                lemma_tokens_skip_whitespace(text@, i as int);
            }
            i = i + 1;
        } else {
            let end: usize = word_end(&chars, i);
            let ghost token = text@.subrange(i as int, end as int);
            proof {
                lemma_tokens_take_word(text@, i as int);
                assert(done + (seq![token] + tokens(text@.skip(end as int))) =~= done.push(token)
                    + tokens(text@.skip(end as int)));
            }
            match find_colon(&chars, i, end) {
                None => {
                    assert(tokens(text@)[done.len() as int] == token);
                    return Err(StoreError::MalformedStore);
                },
                Some(colon) => {
                    let identifier = text.substring_char(i, colon).to_owned();
                    let secret = text.substring_char(colon + 1, end).to_owned();
                    proof {
                        let before = records_of(done).unwrap();
                        let after = records_of(done.push(token)).unwrap();
                        assert(identifier@ =~= token.take(colon - i));
                        assert(secret@ =~= token.skip(colon - i + 1));
                        assert forall|j: int| 0 <= j < done.push(token).len() implies (
                        #[trigger] split_record(done.push(token)[j])) is Some by {}
                        assert(after.drop_last() =~= before);
                    }
                    store.insert(identifier, secret);
                    proof {
                        done = done.push(token);
                    }
                    i = end;
                },
            }
        }
    }
    Ok(store)
}

/// Looks `pw_id` up in the plaintext `pw_store` and returns a copy of its
/// secret.
///
/// Fails with `MalformedStore` when a token of the plaintext lacks its `:`,
/// whatever the other records hold, and with `NotFound` when the plaintext is
/// well formed and no record carries `pw_id`.
pub fn lookup_pw(pw_store: &str, pw_id: &str) -> (res: Result<String, StoreError>)
    ensures
        match res {
            Ok(secret) => lookup(pw_store@, pw_id@) == Ok::<Seq<char>, StoreError>(secret@),
            Err(e) => lookup(pw_store@, pw_id@) == Err::<Seq<char>, StoreError>(e),
        },
{
    let parsed_store = match parse_store(pw_store) {
        Ok(store) => store,
        Err(e) => {
            return Err(e);
        },
    };
    match parsed_store.get(pw_id) {
        Some(secret) => Ok(secret.to_owned()),
        None => Err(StoreError::NotFound),
    }
}

} // verus!
