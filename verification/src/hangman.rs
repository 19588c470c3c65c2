//! The guessing logic of a word-guessing game: applying one guessed letter
//! to the partially revealed word and deciding whether anything is still
//! hidden. Reading guesses and printing the board is I/O and stays outside
//! this crate; the hidden positions are marked with `'-'`.

use vstd::prelude::*;

verus! {

/// Reveals every position of `secret` that holds `guess`, leaving the
/// other positions of `known` as they were, and reports whether the guess
/// hit the word at all.
pub fn apply_guess(secret: &Vec<char>, known: &mut Vec<char>, guess: char) -> (hit: bool)
    requires
        old(known)@.len() == secret@.len(),
    ensures
        final(known)@.len() == secret@.len(),
        forall|i: int|
            0 <= i < secret@.len() ==> final(known)@[i] == (if secret@[i] == guess {
                guess
            } else {
                old(known)@[i]
            }),
        hit <==> exists|i: int| 0 <= i < secret@.len() && secret@[i] == guess,
{
    let mut hit = false;
    let mut i: usize = 0;
    let n = secret.len();
    while i < n
        invariant
            i <= n,
            n == secret@.len(),
            known@.len() == secret@.len(),
            forall|j: int|
                0 <= j < i ==> known@[j] == (if secret@[j] == guess {
                    guess
                } else {
                    old(known)@[j]
                }),
            forall|j: int| i <= j < secret@.len() ==> known@[j] == old(known)@[j],
            hit <==> exists|j: int| 0 <= j < i && secret@[j] == guess,
        decreases n - i,
    {
        if secret[i] == guess {
            known.set(i, guess);
            hit = true;
        }
        i = i + 1;
    }
    hit
}

/// Whether the whole word has been revealed: no position is still hidden.
pub fn all_revealed(known: &Vec<char>) -> (r: bool)
    ensures
        r <==> forall|i: int| 0 <= i < known@.len() ==> known@[i] != '-',
{
    let mut i: usize = 0;
    let n = known.len();
    while i < n
        invariant
            i <= n,
            n == known@.len(),
            forall|j: int| 0 <= j < i ==> known@[j] != '-',
        decreases n - i,
    {
        if known[i] == '-' {
            return false;
        }
        i = i + 1;
    }
    true
}

} // verus!
