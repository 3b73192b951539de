//! The grammar of a decrypted store: records separated by whitespace, each an
//! identifier and a secret around the first `:`.

use vstd::prelude::*;
use vstd::std_specs::iter::IteratorSpec;

verus! {

broadcast use vstd::string::group_string_axioms;

/// The code points with the Unicode property `White_Space`.
pub open spec fn is_whitespace(c: char) -> bool {
    let u = c as u32;
    ||| 0x09 <= u <= 0x0D
    ||| u == 0x20
    ||| u == 0x85
    ||| u == 0xA0
    ||| u == 0x1680
    ||| 0x2000 <= u <= 0x200A
    ||| u == 0x2028
    ||| u == 0x2029
    ||| u == 0x202F
    ||| u == 0x205F
    ||| u == 0x3000
}

/// Whether `s` holds no whitespace.
pub open spec fn is_word(s: Seq<char>) -> bool {
    forall|i: int| 0 <= i < s.len() ==> !is_whitespace(#[trigger] s[i])
}

/// Length of the longest prefix of `s` that holds no whitespace.
pub open spec fn word_len(s: Seq<char>) -> nat
    decreases s.len(),
{
    if s.len() == 0 || is_whitespace(s[0]) {
        0
    } else {
        1 + word_len(s.drop_first())
    }
}

/// A word is a prefix that ends at the first whitespace character, if any.
pub proof fn lemma_word_len(s: Seq<char>)
    ensures
        word_len(s) <= s.len(),
        forall|i: int| 0 <= i < word_len(s) ==> !is_whitespace(#[trigger] s[i]),
        word_len(s) < s.len() ==> is_whitespace(s[word_len(s) as int]),
    decreases s.len(),
{
    if s.len() != 0 && !is_whitespace(s[0]) {
        lemma_word_len(s.drop_first());
        assert forall|i: int| 0 <= i < word_len(s) implies !is_whitespace(#[trigger] s[i]) by {
            if i > 0 {
                assert(s[i] == s.drop_first()[i - 1]);
            }
        }
    }
}

/// The maximal runs of non-whitespace characters of `s`, from left to right.
pub open spec fn tokens(s: Seq<char>) -> Seq<Seq<char>>
    decreases s.len(),
    via tokens_decreases
{
    if s.len() == 0 {
        Seq::empty()
    } else if is_whitespace(s[0]) {
        tokens(s.drop_first())
    } else {
        seq![s.take(word_len(s) as int)] + tokens(s.skip(word_len(s) as int))
    }
}

#[via_fn]
proof fn tokens_decreases(s: Seq<char>) {
    lemma_word_len(s);
}

/// Identifier and secret of a record: what stands before and after its first
/// `:`. `None` for a token without `:`.
pub open spec fn split_record(token: Seq<char>) -> Option<(Seq<char>, Seq<char>)> {
    match token.index_of_first(':') {
        Some(k) => Some((token.take(k), token.skip(k + 1))),
        None => None,
    }
}

/// The records that a list of tokens spells, in the same order; `None` where
/// any token lacks its `:`.
pub open spec fn records_of(tokens: Seq<Seq<char>>) -> Option<Seq<(Seq<char>, Seq<char>)>> {
    if forall|i: int| 0 <= i < tokens.len() ==> (#[trigger] split_record(tokens[i])) is Some {
        Some(Seq::new(tokens.len(), |i: int| split_record(tokens[i]).unwrap()))
    } else {
        None
    }
}

/// Whitespace in front of the tokens is skipped.
pub proof fn lemma_tokens_skip_whitespace(s: Seq<char>, i: int)
    requires
        0 <= i < s.len(),
        is_whitespace(s[i]),
    ensures
        tokens(s.skip(i)) == tokens(s.skip(i + 1)),
{
    assert(s.skip(i).drop_first() =~= s.skip(i + 1));
}

/// A word that starts at `i` is the next token, and the tokens behind it are
/// those of the rest.
pub proof fn lemma_tokens_take_word(s: Seq<char>, i: int)
    requires
        0 <= i < s.len(),
        !is_whitespace(s[i]),
    ensures
        0 < word_len(s.skip(i)) <= s.len() - i,
        tokens(s.skip(i)) == seq![s.subrange(i, i + word_len(s.skip(i)))] + tokens(
            s.skip(i + word_len(s.skip(i))),
        ),
{
    let w = word_len(s.skip(i)) as int;
    lemma_word_len(s.skip(i));
    assert(s.skip(i).take(w) =~= s.subrange(i, i + w));
    assert(s.skip(i).skip(w) =~= s.skip(i + w));
}

/// Every token is a word of at least one character.
pub proof fn lemma_tokens_are_words(s: Seq<char>)
    ensures
        forall|i: int|
            0 <= i < tokens(s).len() ==> (#[trigger] tokens(s)[i]).len() > 0 && is_word(
                tokens(s)[i],
            ),
    decreases s.len(),
{
    if s.len() == 0 {
    } else if is_whitespace(s[0]) {
        lemma_tokens_are_words(s.drop_first());
        assert(tokens(s) == tokens(s.drop_first()));
    } else {
        let w = word_len(s) as int;
        lemma_word_len(s);
        lemma_tokens_are_words(s.skip(w));
        assert forall|i: int| 0 <= i < tokens(s).len() implies (#[trigger] tokens(s)[i]).len() > 0
            && is_word(tokens(s)[i]) by {
            if i > 0 {
                assert(tokens(s)[i] == tokens(s.skip(w))[i - 1]);
            }
        }
    }
}

/// Whether `c` separates records.
pub fn is_separator(c: char) -> (res: bool)
    ensures
        res == is_whitespace(c),
{
    let u: u32 = c as u32;
    (0x09 <= u && u <= 0x0D) || u == 0x20 || u == 0x85 || u == 0xA0 || u == 0x1680 || (0x2000 <= u
        && u <= 0x200A) || u == 0x2028 || u == 0x2029 || u == 0x202F || u == 0x205F || u == 0x3000
}

/// The characters of `text`, decoded once.
pub fn chars_of(text: &str) -> (chars: Vec<char>)
    ensures
        chars@ == text@,
{
    let mut chars: Vec<char> = Vec::new();
    let mut rest = text.chars();
    loop
        invariant
            chars@ + rest.remaining() == text@,
            rest.decrease() is Some,
        ensures
            chars@ == text@,
        decreases rest.decrease()->0,
    {
        match rest.next() {
            Some(c) => {
                chars.push(c);
                assert(chars@ + rest.remaining() =~= text@);
            },
            None => {
                break ;
            },
        }
    }
    chars
}

/// The index behind the word that starts at `start`.
pub fn word_end(chars: &Vec<char>, start: usize) -> (end: usize)
    requires
        start <= chars@.len(),
    ensures
        end == start + word_len(chars@.skip(start as int)),
        end <= chars@.len(),
{
    let n: usize = chars.len();
    let mut end: usize = start;
    while end < n && !is_separator(chars[end])
        invariant
            start <= end <= n,
            n == chars@.len(),
            word_len(chars@.skip(start as int)) == (end - start) + word_len(
                chars@.skip(end as int),
            ),
        decreases n - end,
    {
        assert(chars@.skip(end as int).drop_first() =~= chars@.skip(end + 1));
        end = end + 1;
    }
    end
}

/// The index of the first `:` in `chars[start..end]`, if there is one.
pub fn find_colon(chars: &Vec<char>, start: usize, end: usize) -> (res: Option<usize>)
    requires
        start <= end <= chars@.len(),
    ensures
        match res {
            Some(k) => start <= k < end && chars@.subrange(
                start as int,
                end as int,
            ).index_of_first(':') == Some(k - start),
            None => chars@.subrange(start as int, end as int).index_of_first(':') is None,
        },
{
    let ghost token = chars@.subrange(start as int, end as int);
    let mut k: usize = start;
    while k < end
        invariant
            start <= k <= end <= chars@.len(),
            token == chars@.subrange(start as int, end as int),
            forall|j: int| 0 <= j < k - start ==> token[j] != ':',
        decreases end - k,
    {
        if chars[k] == ':' {
            proof {
                token.index_of_first_ensures(':');
                assert(token[k - start] == ':');
            }
            return Some(k);
        }
        k = k + 1;
    }
    proof {
        token.index_of_first_ensures(':');
    }
    None
}

} // verus!
