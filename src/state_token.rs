use vstd::prelude::*;

verus! {

/// Number of characters of a state token id.
pub const STATE_LENGTH: usize = 20;

/// The symbols a state token id is drawn from: digits, then upper-case and
/// lower-case ASCII letters.
pub open spec fn state_alphabet() -> Seq<char> {
    "0123456789ABCDEFGHIJKLMNOPQRSTUVWXYZabcdefghijklmnopqrstuvwxyz"@
}

/// A well-formed state token id: `STATE_LENGTH` symbols of the alphabet.
pub open spec fn is_state_id(s: Seq<char>) -> bool {
    &&& s.len() == STATE_LENGTH
    &&& forall|i: int| 0 <= i < s.len() ==> state_alphabet().contains(#[trigger] s[i])
}

fn alphabet() -> (r: &'static str)
    ensures
        r@ == state_alphabet(),
        r@.len() == 62,
        r.is_ascii(),
{
    let r = "0123456789ABCDEFGHIJKLMNOPQRSTUVWXYZabcdefghijklmnopqrstuvwxyz";
    proof {
        reveal_strlit("0123456789ABCDEFGHIJKLMNOPQRSTUVWXYZabcdefghijklmnopqrstuvwxyz");
    }
    r
}

/// Relies on rand::Rng::gen on rand::thread_rng: a random word. Nothing is
/// stated of its value.
#[verifier::external_body]
fn random_word() -> (r: usize) {
    rand::Rng::gen::<usize>(&mut rand::thread_rng())
}

/// The symbol a random word picks: the word modulo the alphabet's size.
pub open spec fn symbol_of(word: usize) -> char {
    state_alphabet()[(word % 62) as int]
}

/// The state token id that `STATE_LENGTH` random words give, one symbol per
/// word.
pub fn state_from_words(words: &Vec<usize>) -> (r: String)
    requires
        words@.len() == STATE_LENGTH,
    ensures
        r@ == Seq::new(STATE_LENGTH as nat, |i: int| symbol_of(words@[i])),
        is_state_id(r@),
{
    let symbols = alphabet();
    let mut state = String::new();
    let mut n: usize = 0;
    while n < STATE_LENGTH
        invariant
            words@.len() == STATE_LENGTH,
            symbols@ == state_alphabet(),
            symbols@.len() == 62,
            symbols.is_ascii(),
            n <= STATE_LENGTH,
            state@ == Seq::new(n as nat, |i: int| symbol_of(words@[i])),
        decreases STATE_LENGTH - n,
    {
        let k = words[n] % 62;
        let symbol = symbols.substring_ascii(k, k + 1);
        assert(symbol@[0] == symbol_of(words@[n as int]));
        state.append(symbol);
        assert(state@ =~= Seq::new((n + 1) as nat, |i: int| symbol_of(words@[i])));
        n += 1;
    }
    assert forall|i: int| 0 <= i < state@.len() implies state_alphabet().contains(#[trigger] state@[i]) by {
        assert(state@[i] == state_alphabet()[(words@[i] % 62) as int]);
    }
    state
}

/// Draws a fresh state token id: `STATE_LENGTH` random words, each turned
/// into a symbol of the alphabet.
pub fn generate_state() -> (r: String)
    ensures
        is_state_id(r@),
{
    let mut words: Vec<usize> = Vec::new();
    let mut n: usize = 0;
    while n < STATE_LENGTH
        invariant
            n <= STATE_LENGTH,
            words@.len() == n,
        decreases STATE_LENGTH - n,
    {
        words.push(random_word());
        n += 1;
    }
    state_from_words(&words)
}

} // verus!
