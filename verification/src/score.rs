use vstd::prelude::*;

use crate::words::{is_word_shape, lemma_word_shape_ascii};

verus! {

/// The feedback symbol for position `i`: the secret's own letter on an
/// exact-position match, `*` when the guessed letter occurs anywhere in
/// the secret, `-` when it is absent. A letter is marked `*` whenever it
/// occurs in the secret at all; letter counts are not deduplicated.
pub open spec fn feedback_char(w: Seq<char>, g: Seq<char>, i: int) -> char {
    if g[i] == w[i] {
        w[i]
    } else if w.contains(g[i]) {
        '*'
    } else {
        '-'
    }
}

/// The feedback for scoring secret `w` against guess `g`: one symbol
/// per guess position, in order. Being a function of `(w, g)` alone,
/// the feedback is deterministic.
pub open spec fn feedback(w: Seq<char>, g: Seq<char>) -> Seq<char> {
    Seq::new(g.len(), |i: int| feedback_char(w, g, i))
}

/// Scoring a five-letter secret against a five-letter guess produces
/// exactly five symbols, one per position.
pub proof fn lemma_feedback_length(w: Seq<char>, g: Seq<char>)
    requires
        w.len() == 5,
        g.len() == 5,
    ensures
        feedback(w, g).len() == 5,
{
}

/// An exact-position match is always reported as the secret's letter:
/// wherever the guess agrees with the secret, the feedback repeats that
/// letter.
pub proof fn lemma_feedback_exact_match(w: Seq<char>, g: Seq<char>, i: int)
    requires
        0 <= i < g.len(),
        g[i] == w[i],
    ensures
        feedback(w, g)[i] == w[i],
{
}

/// Whether the character `c` occurs anywhere in the word `w`.
fn word_contains_char(w: &str, c: char) -> (r: bool)
    requires
        is_word_shape(w@),
    ensures
        r == w@.contains(c),
{
    let mut i: usize = 0;
    while i < 5
        invariant
            w@.len() == 5,
            0 <= i <= 5,
            forall|j: int| 0 <= j < i ==> w@[j] != c,
        decreases 5 - i,
    {
        if w.get_char(i) == c {
            return true;
        }
        i = i + 1;
    }
    proof {
        assert(!w@.contains(c)) by {
            if w@.contains(c) {
                let j = choose|j: int| 0 <= j < w@.len() && w@[j] == c;
                assert(w@[j] != c);
            }
        }
    }
    false
}

/// Computes the feedback symbols for scoring `secret` against `guess`.
pub fn feedback_string(secret: &str, guess: &str) -> (r: String)
    requires
        is_word_shape(secret@),
        is_word_shape(guess@),
    ensures
        r@ == feedback(secret@, guess@),
{
    proof {
        lemma_word_shape_ascii(secret@);
    }
    let mut out = String::new();
    let mut i: usize = 0;
    while i < 5
        invariant
            is_word_shape(secret@),
            is_word_shape(guess@),
            vstd::utf8::is_ascii_chars(secret@),
            0 <= i <= 5,
            out@ =~= feedback(secret@, guess@).subrange(0, i as int),
        decreases 5 - i,
    {
        let cw = secret.get_char(i);
        let cg = guess.get_char(i);
        if cg == cw {
            out.append(secret.substring_ascii(i, i + 1));
        } else if word_contains_char(secret, cg) {
            proof {
                reveal_strlit("*");
            }
            out.append("*");
        } else {
            proof {
                reveal_strlit("-");
            }
            out.append("-");
        }
        proof {
            assert(out@ =~= feedback(secret@, guess@).subrange(0, i + 1));
        }
        i = i + 1;
    }
    proof {
        assert(out@ =~= feedback(secret@, guess@));
    }
    out
}

} // verus!
