use vstd::prelude::*;

verus! {

/// A guess or secret word is well shaped when it is exactly five
/// lowercase ASCII letters.
pub open spec fn is_word_shape(s: Seq<char>) -> bool {
    s.len() == 5 && forall|i: int| 0 <= i < s.len() ==> 'a' <= #[trigger] s[i] <= 'z'
}

/// Strict lexicographic order on character sequences.
pub open spec fn lex_lt(a: Seq<char>, b: Seq<char>) -> bool
    decreases a.len(),
{
    if b.len() == 0 {
        false
    } else if a.len() == 0 {
        true
    } else if a[0] < b[0] {
        true
    } else if a[0] == b[0] {
        lex_lt(a.drop_first(), b.drop_first())
    } else {
        false
    }
}

/// The lexicographic order is irreflexive.
pub proof fn lemma_lex_irrefl(a: Seq<char>)
    ensures
        !lex_lt(a, a),
    decreases a.len(),
{
    if a.len() > 0 {
        lemma_lex_irrefl(a.drop_first());
    }
}

/// The lexicographic order is transitive.
pub proof fn lemma_lex_trans(a: Seq<char>, b: Seq<char>, c: Seq<char>)
    requires
        lex_lt(a, b),
        lex_lt(b, c),
    ensures
        lex_lt(a, c),
    decreases a.len(),
{
    if c.len() == 0 || a.len() == 0 {
    } else if b.len() == 0 {
    } else {
        if a[0] == b[0] && b[0] == c[0] {
            lemma_lex_trans(a.drop_first(), b.drop_first(), c.drop_first());
        }
    }
}

/// Two sequences that agree up to position `i` and differ there, the
/// first being smaller, are lexicographically ordered.
pub proof fn lemma_lex_from_first_difference(a: Seq<char>, b: Seq<char>, i: int)
    requires
        0 <= i < a.len(),
        i < b.len(),
        forall|j: int| 0 <= j < i ==> a[j] == b[j],
        a[i] < b[i],
    ensures
        lex_lt(a, b),
    decreases i,
{
    if i > 0 {
        assert(forall|j: int| 0 <= j < i - 1 ==> a.drop_first()[j] == b.drop_first()[j]);
        assert(a.drop_first()[i - 1] == a[i]);
        lemma_lex_from_first_difference(a.drop_first(), b.drop_first(), i - 1);
    }
}

/// Checks that a guess has the required shape: exactly five lowercase
/// ASCII letters.
pub fn word_has_shape(s: &str) -> (r: bool)
    ensures
        r == is_word_shape(s@),
{
    let n = s.unicode_len();
    if n != 5 {
        return false;
    }
    let mut i: usize = 0;
    while i < n
        invariant
            n == s@.len(),
            0 <= i <= n,
            forall|j: int| 0 <= j < i ==> 'a' <= #[trigger] s@[j] <= 'z',
        decreases n - i,
    {
        let c = s.get_char(i);
        if !('a' <= c && c <= 'z') {
            return false;
        }
        i = i + 1;
    }
    true
}

/// A well-shaped word is ASCII, which allows byte-level slicing.
pub proof fn lemma_word_shape_ascii(s: Seq<char>)
    requires
        is_word_shape(s),
    ensures
        vstd::utf8::is_ascii_chars(s),
{
    assert forall|i: int| 0 <= i < s.len() implies '\0' <= #[trigger] s[i] <= '\u{7f}' by {
        assert('a' <= s[i] <= 'z');
    }
}

/// Three-way comparison of two well-shaped words, deciding the
/// lexicographic order of their character sequences.
pub fn word_cmp(a: &str, b: &str) -> (r: i8)
    requires
        is_word_shape(a@),
        is_word_shape(b@),
    ensures
        r == 0 <==> a@ == b@,
        r < 0 <==> lex_lt(a@, b@),
        r > 0 <==> lex_lt(b@, a@),
{
    let mut i: usize = 0;
    while i < 5
        invariant
            0 <= i <= 5,
            a@.len() == 5,
            b@.len() == 5,
            forall|j: int| 0 <= j < i ==> a@[j] == b@[j],
        decreases 5 - i,
    {
        let ca = a.get_char(i);
        let cb = b.get_char(i);
        if ca < cb {
            proof {
                lemma_lex_from_first_difference(a@, b@, i as int);
                lemma_lex_irrefl(a@);
                if lex_lt(b@, a@) {
                    lemma_lex_trans(a@, b@, a@);
                }
            }
            return -1;
        }
        if cb < ca {
            proof {
                lemma_lex_from_first_difference(b@, a@, i as int);
                lemma_lex_irrefl(b@);
                if lex_lt(a@, b@) {
                    lemma_lex_trans(b@, a@, b@);
                }
            }
            return 1;
        }
        i = i + 1;
    }
    proof {
        assert(a@ =~= b@);
        lemma_lex_irrefl(a@);
    }
    0
}

} // verus!
