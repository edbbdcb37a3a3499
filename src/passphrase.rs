//! Drawing passphrases: words picked at random from a word list, joined by hyphens.
use rand::Rng;
use vstd::prelude::*;

verus! {

/// The fewest words a passphrase may have.
pub const MIN_WORDS: u8 = 1;

/// The most words a passphrase may have.
pub const MAX_WORDS: u8 = 10;

/// Why a passphrase could not be drawn.
#[derive(Debug, Clone, Copy, PartialEq, Eq, Structural)]
pub enum PassphraseError {
    /// The word count lies outside `MIN_WORDS..=MAX_WORDS`.
    InvalidLength,
    /// The word list holds no word.
    EmptyWordList,
}

/// The words of `ws`, in order, with one hyphen between each two.
pub open spec fn hyphen_join(ws: Seq<Seq<char>>) -> Seq<char>
    decreases ws.len(),
{
    if ws.len() == 0 {
        Seq::empty()
    } else if ws.len() == 1 {
        ws[0]
    } else {
        hyphen_join(ws.drop_last()) + seq!['-'] + ws.last()
    }
}

/// The views of the strings in a word list.
pub open spec fn words_view(words: Seq<String>) -> Seq<Seq<char>> {
    words.map_values(|w: String| w@)
}

/// `s` is `n` words of `words`, each drawn from anywhere in the list, joined by hyphens.
pub open spec fn is_drawn_from(s: Seq<char>, words: Seq<Seq<char>>, n: nat) -> bool {
    exists|ws: Seq<Seq<char>>|
        ws.len() == n && (forall|i: int| 0 <= i < ws.len() ==> words.contains(#[trigger] ws[i]))
            && s == hyphen_join(ws)
}

/// A word count that a passphrase may have.
pub open spec fn valid_length(length: u8) -> bool {
    MIN_WORDS <= length <= MAX_WORDS
}

/// Relies on rand's `rng().random_range(0..n)`: a number drawn from `0..n`,
/// which panics on an empty range.
#[verifier::external_body]
fn random_below(n: usize) -> (r: usize)
    requires
        n > 0,
    ensures
        r < n,
{
    rand::rng().random_range(0..n)
}

/// The words that the indices `draws` pick out of `words`, in order.
pub open spec fn picked(draws: Seq<usize>, words: Seq<Seq<char>>) -> Seq<Seq<char>> {
    draws.map_values(|i: usize| words[i as int])
}

proof fn lemma_hyphen_join_push(ws: Seq<Seq<char>>, w: Seq<char>)
    ensures
        hyphen_join(ws.push(w)) == if ws.len() == 0 {
            w
        } else {
            hyphen_join(ws) + seq!['-'] + w
        },
{
    assert(ws.push(w).drop_last() =~= ws);
}

/// The passphrase that the word indices `draws` give: the words they pick
/// from `wordlist`, joined by hyphens.
pub fn code_from_draws(draws: &Vec<usize>, wordlist: &Vec<String>) -> (r: String)
    requires
        forall|i: int| 0 <= i < draws@.len() ==> #[trigger] draws@[i] < wordlist@.len(),
    ensures
        r@ == hyphen_join(picked(draws@, words_view(wordlist@))),
{
    let ghost words = words_view(wordlist@);
    let mut code = String::new();
    let mut i: usize = 0;
    while i < draws.len()
        invariant
            i <= draws@.len(),
            words == words_view(wordlist@),
            forall|j: int| 0 <= j < draws@.len() ==> #[trigger] draws@[j] < wordlist@.len(),
            code@ == hyphen_join(picked(draws@.take(i as int), words)),
        decreases draws@.len() - i,
    {
        let ghost before = picked(draws@.take(i as int), words);
        let word = &wordlist[draws[i]];
        if i > 0 {
            code.append("-");
        }
        code.append(word.as_str());
        proof {
            reveal_strlit("-");
            assert(picked(draws@.take(i as int + 1), words) =~= before.push(word@));
            lemma_hyphen_join_push(before, word@);
            if i == 0 {
                assert(before.len() == 0);
                assert(hyphen_join(before) =~= Seq::<char>::empty());
                assert(code@ =~= word@);
            }
        }
        i = i + 1;
    }
    proof {
        assert(draws@.take(draws@.len() as int) =~= draws@);
    }
    code
}

/// Draws `length` words uniformly and independently, with replacement, from
/// `wordlist` and joins them with hyphens.
pub fn generate_code(length: u8, wordlist: &Vec<String>) -> (r: Result<String, PassphraseError>)
    ensures
        !valid_length(length) ==> r == Err::<String, PassphraseError>(PassphraseError::InvalidLength),
        valid_length(length) && wordlist@.len() == 0 ==> r == Err::<String, PassphraseError>(
            PassphraseError::EmptyWordList,
        ),
        valid_length(length) && wordlist@.len() > 0 ==> r is Ok && is_drawn_from(
            r->Ok_0@,
            words_view(wordlist@),
            length as nat,
        ),
{
    if length < MIN_WORDS || length > MAX_WORDS {
        return Err(PassphraseError::InvalidLength);
    }
    if wordlist.len() == 0 {
        return Err(PassphraseError::EmptyWordList);
    }
    let mut draws: Vec<usize> = Vec::new();
    let mut count: u8 = 0;
    while count < length
        invariant
            count <= length,
            wordlist@.len() > 0,
            draws@.len() == count as nat,
            forall|j: int| 0 <= j < draws@.len() ==> #[trigger] draws@[j] < wordlist@.len(),
        decreases length - count,
    {
        draws.push(random_below(wordlist.len()));
        count = count + 1;
    }
    let code = code_from_draws(&draws, wordlist);
    proof {
        let words = words_view(wordlist@);
        let ws = picked(draws@, words);
        assert forall|i: int| 0 <= i < ws.len() implies words.contains(#[trigger] ws[i]) by {
            assert(words[draws@[i] as int] == ws[i]);
        }
        assert(is_drawn_from(code@, words, length as nat));
    }
    Ok(code)
}

} // verus!
