//! Scoring of a matched tag name.  Lower scores win.

use vstd::prelude::*;

use crate::chars::{is_alpha, is_word, word_char};

verus! {

/// 1 for an ASCII letter, 0 otherwise.
pub open spec fn alpha_in(c: char) -> nat {
    if is_alpha(c) {
        1
    } else {
        0
    }
}

/// How many ASCII letters sit in `s[i..j]`.
pub open spec fn ac_range(s: Seq<char>, i: int, j: int) -> nat
    decreases j - i,
{
    if i >= j {
        0
    } else {
        alpha_in(s[i]) + ac_range(s, i + 1, j)
    }
}

/// How many ASCII letters the name holds.
pub open spec fn alpha_count(s: Seq<char>) -> nat {
    ac_range(s, 0, s.len() as int)
}

pub proof fn lemma_ac_snoc(s: Seq<char>, i: int, j: int)
    requires
        i <= j < s.len(),
    ensures
        ac_range(s, i, j + 1) == ac_range(s, i, j) + alpha_in(s[j]),
    decreases j - i,
{
    if i < j {
        lemma_ac_snoc(s, i + 1, j);
    } else {
        assert(ac_range(s, i, j) == 0);
        assert(ac_range(s, j + 1, j + 1) == 0);
    }
}

/// Counting splits over any middle point.
pub proof fn lemma_ac_split(s: Seq<char>, i: int, k: int, j: int)
    requires
        i <= k <= j <= s.len(),
    ensures
        ac_range(s, i, j) == ac_range(s, i, k) + ac_range(s, k, j),
    decreases k - i,
{
    if i < k {
        lemma_ac_split(s, i + 1, k, j);
    }
}

/// The score of a tag name matched by the pattern with priority `prio` at
/// position `m`: the name's length, plus 100 for every ASCII letter in it,
/// plus the priority; 10000 more when the two characters just before the
/// match position are both word characters, and 200 times as much when the
/// match instead starts deeper than position 3.
pub open spec fn match_score(prio: nat, name: Seq<char>, m: int) -> nat {
    let s0 = prio + name.len() + 100 * alpha_count(name);
    if 1 < m <= name.len() && is_word(name[m - 2]) && is_word(name[m - 1]) {
        s0 + 10000
    } else if m > 3 {
        s0 * 200
    } else {
        s0
    }
}

pub fn count_alpha(name: &Vec<char>) -> (n: usize)
    ensures
        n as nat == alpha_count(name@),
{
    let mut n: usize = 0;
    let mut i: usize = 0;
    while i < name.len()
        invariant
            i <= name@.len(),
            n <= i,
            n as nat == ac_range(name@, 0, i as int),
        decreases name@.len() - i,
    {
        proof {
            lemma_ac_snoc(name@, 0, i as int);
        }
        if crate::chars::alpha_char(name[i]) {
            n = n + 1;
        }
        i = i + 1;
    }
    n
}

/// Compute the score of a matched name.
pub fn compute_score(prio: u128, name: &Vec<char>, m: usize) -> (s: u128)
    requires
        prio <= 20000,
        m <= name@.len(),
    ensures
        s as nat == match_score(prio as nat, name@, m as int),
{
    let cnt = count_alpha(name);
    proof {
        assert(alpha_count(name@) <= name@.len()) by {
            lemma_ac_le(name@, 0, name@.len() as int);
        }
    }
    let s0: u128 = prio + (name.len() as u128) + 100 * (cnt as u128);
    if m > 1 && word_char(name[m - 2]) && word_char(name[m - 1]) {
        s0 + 10000
    } else if m > 3 {
        s0 * 200
    } else {
        s0
    }
}

pub proof fn lemma_ac_range_ge(q: Seq<char>, s: Seq<char>, m: int, k: int)
    requires
        0 <= m,
        0 <= k <= q.len(),
        m + q.len() <= s.len(),
        forall|j: int| 0 <= j < q.len() && is_alpha(q[j]) ==> is_alpha(s[m + j]),
    ensures
        ac_range(s, m + k, m + q.len()) >= ac_range(q, k, q.len() as int),
    decreases q.len() - k,
{
    if k < q.len() {
        lemma_ac_range_ge(q, s, m, k + 1);
        assert(alpha_in(s[m + k]) >= alpha_in(q[k]));
    }
}

/// A name that contains the query as a window, letter positions preserved,
/// holds at least as many letters as the query.
pub proof fn lemma_alpha_count_window_ge(q: Seq<char>, s: Seq<char>, m: int)
    requires
        0 <= m,
        m + q.len() <= s.len(),
        forall|j: int| 0 <= j < q.len() && is_alpha(q[j]) ==> is_alpha(s[m + j]),
    ensures
        alpha_count(s) >= alpha_count(q),
{
    lemma_ac_split(s, 0, m, s.len() as int);
    lemma_ac_split(s, m, m + q.len(), s.len() as int);
    lemma_ac_range_ge(q, s, m, 0);
}

/// A range holds no more letters than characters.
pub proof fn lemma_ac_le(s: Seq<char>, i: int, j: int)
    requires
        i <= j <= s.len(),
    ensures
        ac_range(s, i, j) <= j - i,
    decreases j - i,
{
    if i < j {
        lemma_ac_le(s, i + 1, j);
    }
}

} // verus!
