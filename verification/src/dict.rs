use vstd::prelude::*;

use crate::words::{
    is_word_shape, lemma_lex_irrefl, lemma_lex_trans, lex_lt, word_cmp, word_has_shape,
};

verus! {

/// Mathematical model of the dictionary: the two word pools as
/// sequences of character sequences, in their stored order.
pub ghost struct DictModel {
    /// Pool from which secrets are drawn; its words are also valid guesses.
    pub answers: Seq<Seq<char>>,
    /// Words accepted as guesses but never chosen as secrets.
    pub extras: Seq<Seq<char>>,
}

impl DictModel {
    /// A guess is accepted when it appears in either pool.
    pub open spec fn accepts(self, w: Seq<char>) -> bool {
        self.answers.contains(w) || self.extras.contains(w)
    }
}

/// A word pool is well formed when every entry is a well-shaped word
/// and the entries are in strictly ascending lexicographic order.
pub open spec fn wf_word_list(ws: Seq<Seq<char>>) -> bool {
    &&& forall|i: int| 0 <= i < ws.len() ==> is_word_shape(#[trigger] ws[i])
    &&& forall|i: int, j: int| 0 <= i < j < ws.len() ==> lex_lt(#[trigger] ws[i], #[trigger] ws[j])
}

/// Checks that a word pool is well formed: every entry five lowercase
/// letters, entries strictly ascending.
pub fn check_word_list(ws: &Vec<String>) -> (r: bool)
    ensures
        r == wf_word_list(ws.deep_view()),
{
    let n = ws.len();
    let mut i: usize = 0;
    while i < n
        invariant
            n == ws.len(),
            0 <= i <= n,
            ws.deep_view().len() == n,
            forall|k: int| 0 <= k < i ==> is_word_shape(#[trigger] ws.deep_view()[k]),
            forall|p: int, q: int|
                0 <= p < q < i ==> lex_lt(
                    #[trigger] ws.deep_view()[p],
                    #[trigger] ws.deep_view()[q],
                ),
        decreases n - i,
    {
        proof {
            assert(ws.deep_view()[i as int] == ws@[i as int]@);
        }
        if !word_has_shape(ws[i].as_str()) {
            return false;
        }
        if i > 0 {
            proof {
                assert(ws.deep_view()[i - 1] == ws@[i - 1]@);
            }
            let c = word_cmp(ws[i - 1].as_str(), ws[i].as_str());
            if c >= 0 {
                return false;
            }
            proof {
                assert forall|p: int, q: int| 0 <= p < q < i + 1 implies lex_lt(
                    #[trigger] ws.deep_view()[p],
                    #[trigger] ws.deep_view()[q],
                ) by {
                    if q == i {
                        if p < i - 1 {
                            lemma_lex_trans(
                                ws.deep_view()[p],
                                ws.deep_view()[i - 1],
                                ws.deep_view()[i as int],
                            );
                        }
                    }
                }
            }
        }
        i = i + 1;
    }
    true
}

/// Binary search for `g` in a well-formed word pool.
fn word_list_contains(ws: &Vec<String>, g: &str) -> (r: bool)
    requires
        wf_word_list(ws.deep_view()),
        is_word_shape(g@),
    ensures
        r == ws.deep_view().contains(g@),
{
    let mut lo: usize = 0;
    let mut hi: usize = ws.len();
    while lo < hi
        invariant
            wf_word_list(ws.deep_view()),
            is_word_shape(g@),
            ws.deep_view().len() == ws.len(),
            0 <= lo <= hi <= ws.len(),
            forall|k: int| 0 <= k < lo ==> lex_lt(#[trigger] ws.deep_view()[k], g@),
            forall|k: int| hi <= k < ws.len() ==> lex_lt(g@, #[trigger] ws.deep_view()[k]),
        decreases hi - lo,
    {
        let mid = lo + (hi - lo) / 2;
        proof {
            assert(ws.deep_view()[mid as int] == ws@[mid as int]@);
            assert(is_word_shape(ws.deep_view()[mid as int]));
        }
        let c = word_cmp(ws[mid].as_str(), g);
        if c == 0 {
            assert(ws.deep_view()[mid as int] == g@);
            return true;
        } else if c < 0 {
            proof {
                assert forall|k: int| 0 <= k < mid + 1 implies lex_lt(
                    #[trigger] ws.deep_view()[k],
                    g@,
                ) by {
                    if k < mid {
                        lemma_lex_trans(ws.deep_view()[k], ws.deep_view()[mid as int], g@);
                    }
                }
            }
            lo = mid + 1;
        } else {
            proof {
                assert forall|k: int| mid <= k < ws.len() implies lex_lt(
                    g@,
                    #[trigger] ws.deep_view()[k],
                ) by {
                    if k > mid {
                        lemma_lex_trans(g@, ws.deep_view()[mid as int], ws.deep_view()[k]);
                    }
                }
            }
            hi = mid;
        }
    }
    proof {
        if ws.deep_view().contains(g@) {
            let k = choose|k: int| 0 <= k < ws.deep_view().len() && ws.deep_view()[k] == g@;
            lemma_lex_irrefl(g@);
            assert(lex_lt(ws.deep_view()[k], g@) || lex_lt(g@, ws.deep_view()[k]));
        }
    }
    false
}

/// The read-only dictionary shared by all sessions: the answer pool,
/// from which secrets are drawn, and the auxiliary pool of further
/// valid guesses.
pub struct Dictionary {
    answers: Vec<String>,
    extras: Vec<String>,
}

impl View for Dictionary {
    type V = DictModel;

    closed spec fn view(&self) -> DictModel {
        DictModel { answers: self.answers.deep_view(), extras: self.extras.deep_view() }
    }
}

/// Relies on rand::random_range: a draw from `0..n` through the
/// thread-local generator, uniform over the range and always below `n`;
/// it panics only on an empty range, which the precondition excludes.
#[verifier::external_body]
fn random_below(n: usize) -> (r: usize)
    requires
        n > 0,
    ensures
        r < n,
{
    rand::random_range(0..n)
}

impl Dictionary {
    /// Both pools well formed, and at least one secret to choose from.
    pub open spec fn wf(self) -> bool {
        &&& wf_word_list(self@.answers)
        &&& wf_word_list(self@.extras)
        &&& self@.answers.len() > 0
    }

    /// Builds the dictionary after checking both pools; a missing or
    /// malformed pool is a fatal startup condition, reported as `None`.
    pub fn new(answers: Vec<String>, extras: Vec<String>) -> (r: Option<Dictionary>)
        ensures
            match r {
                Some(d) => {
                    &&& d.wf()
                    &&& d@.answers == answers.deep_view()
                    &&& d@.extras == extras.deep_view()
                },
                None => !(wf_word_list(answers.deep_view()) && wf_word_list(extras.deep_view())
                    && answers.len() > 0),
            },
    {
        if answers.len() == 0 {
            return None;
        }
        if !check_word_list(&answers) {
            return None;
        }
        if !check_word_list(&extras) {
            return None;
        }
        Some(Dictionary { answers, extras })
    }

    /// Membership test for a guess: true iff the guess appears in the
    /// answer pool or the auxiliary pool. Case-sensitive, exact match.
    pub fn is_valid_guess(&self, g: &str) -> (r: bool)
        requires
            self.wf(),
        ensures
            r == self@.accepts(g@),
    {
        if !word_has_shape(g) {
            proof {
                if self@.answers.contains(g@) {
                    let k = choose|k: int|
                        0 <= k < self@.answers.len() && self@.answers[k] == g@;
                    assert(is_word_shape(self@.answers[k]));
                }
                if self@.extras.contains(g@) {
                    let k = choose|k: int| 0 <= k < self@.extras.len() && self@.extras[k] == g@;
                    assert(is_word_shape(self@.extras[k]));
                }
            }
            return false;
        }
        if word_list_contains(&self.answers, g) {
            return true;
        }
        word_list_contains(&self.extras, g)
    }

    /// Draws a secret word from the answer pool. The draw is random;
    /// every outcome is a well-shaped member of the answer pool.
    pub fn pick_secret(&self) -> (w: String)
        requires
            self.wf(),
        ensures
            self@.answers.contains(w@),
            is_word_shape(w@),
    {
        let i = random_below(self.answers.len());
        let w = self.answers[i].clone();
        proof {
            assert(self@.answers[i as int] == w@);
        }
        w
    }
}

} // verus!
