//! Rewrites that turn a raw query into the working name that the patterns
//! are derived from.
//!
//! A query that exactly equals one of eight special operator spellings is
//! replaced wholesale (`*` becomes `star`, and so on).  Any other query goes
//! through four ordered rewrites: `"` becomes `quote`, `|` becomes `bar`,
//! a caret followed by a character becomes `CTRL-` plus that character, and
//! an underscore is inserted after every `CTRL-x` token whose next character
//! is not already an underscore.

use vstd::prelude::*;

use crate::text::chars_eq;

verus! {

pub open spec fn quote_word() -> Seq<char> {
    seq!['q', 'u', 'o', 't', 'e']
}

pub open spec fn bar_word() -> Seq<char> {
    seq!['b', 'a', 'r']
}

/// Replace, from index `i` on, every occurrence of the character `c` by the
/// word `r`.
pub open spec fn subst_from(s: Seq<char>, i: int, c: char, r: Seq<char>) -> Seq<char>
    decreases s.len() - i,
{
    if !(0 <= i < s.len()) {
        seq![]
    } else if s[i] == c {
        r + subst_from(s, i + 1, c, r)
    } else {
        seq![s[i]] + subst_from(s, i + 1, c, r)
    }
}

pub open spec fn subst_char(s: Seq<char>, c: char, r: Seq<char>) -> Seq<char> {
    subst_from(s, 0, c, r)
}

/// Rewrite, from index `i` on, every caret followed by a character into
/// `CTRL-` plus that character.  A trailing lone caret is kept.
pub open spec fn caret_from(s: Seq<char>, i: int) -> Seq<char>
    decreases s.len() - i,
{
    if !(0 <= i < s.len()) {
        seq![]
    } else if s[i] == '^' && i + 1 < s.len() {
        seq!['C', 'T', 'R', 'L', '-', s[i + 1]] + caret_from(s, i + 2)
    } else {
        seq![s[i]] + caret_from(s, i + 1)
    }
}

pub open spec fn caret_rewrite(s: Seq<char>) -> Seq<char> {
    caret_from(s, 0)
}

/// A `CTRL-x` token starts at `i`, followed by one more character that is
/// not an underscore.
pub open spec fn ctrl_tok_at(s: Seq<char>, i: int) -> bool {
    &&& i + 7 <= s.len()
    &&& s[i] == 'C'
    &&& s[i + 1] == 'T'
    &&& s[i + 2] == 'R'
    &&& s[i + 3] == 'L'
    &&& s[i + 4] == '-'
    &&& s[i + 6] != '_'
}

/// Insert, scanning from index `i`, an underscore between every `CTRL-x`
/// token and a following character that is not an underscore.  The scan
/// resumes after the rewritten stretch, as a leftmost non-overlapping
/// replacement does.
pub open spec fn ctrl_from(s: Seq<char>, i: int) -> Seq<char>
    decreases s.len() - i,
{
    if !(0 <= i < s.len()) {
        seq![]
    } else if ctrl_tok_at(s, i) {
        s.subrange(i, i + 6) + seq!['_', s[i + 6]] + ctrl_from(s, i + 7)
    } else {
        seq![s[i]] + ctrl_from(s, i + 1)
    }
}

pub open spec fn ctrl_underscore(s: Seq<char>) -> Seq<char> {
    ctrl_from(s, 0)
}

/// The full-string replacement table: queries that are exactly one of these
/// eight spellings are replaced before any other rewrite runs.
pub open spec fn full_replacement(q: Seq<char>) -> Option<Seq<char>> {
    if q == seq!['*'] {
        Some(seq!['s', 't', 'a', 'r'])
    } else if q == seq!['*', '*'] {
        Some(seq!['s', 't', 'a', 'r', 's', 't', 'a', 'r'])
    } else if q == seq!['"', '*'] {
        Some(seq!['q', 'u', 'o', 't', 'e', 's', 't', 'a', 'r'])
    } else if q == seq!['/', '*'] {
        Some(seq!['/', 's', 't', 'a', 'r'])
    } else if q == seq!['/', '\\', '*'] {
        Some(seq!['/', '\\', 's', 't', 'a', 'r'])
    } else if q == seq!['[', '*'] {
        Some(seq!['[', 's', 't', 'a', 'r'])
    } else if q == seq![']', '*'] {
        Some(seq![']', 's', 't', 'a', 'r'])
    } else if q == seq!['g', '*'] {
        Some(seq!['g', 's', 't', 'a', 'r'])
    } else {
        None
    }
}

/// The working name: the full-string replacement if one applies, otherwise
/// the four ordered rewrites in order.
pub open spec fn working_name(q: Seq<char>) -> Seq<char> {
    match full_replacement(q) {
        Some(w) => w,
        None => ctrl_underscore(
            caret_rewrite(subst_char(subst_char(q, '"', quote_word()), '|', bar_word())),
        ),
    }
}

/// Append every character of `r` to `out`.
pub fn push_all(out: &mut Vec<char>, r: &Vec<char>)
    ensures
        final(out)@ == old(out)@ + r@,
{
    let mut k: usize = 0;
    while k < r.len()
        invariant
            k <= r@.len(),
            out@ =~= old(out)@ + r@.take(k as int),
        decreases r@.len() - k,
    {
        out.push(r[k]);
        k = k + 1;
    }
    proof {
        assert(out@ =~= old(out)@ + r@);
    }
}

pub fn subst_vec(s: &Vec<char>, c: char, r: &Vec<char>) -> (out: Vec<char>)
    ensures
        out@ == subst_char(s@, c, r@),
{
    let mut out: Vec<char> = Vec::new();
    let mut i: usize = 0;
    while i < s.len()
        invariant
            i <= s@.len(),
            out@ + subst_from(s@, i as int, c, r@) =~= subst_char(s@, c, r@),
        decreases s@.len() - i,
    {
        if s[i] == c {
            push_all(&mut out, r);
        } else {
            out.push(s[i]);
        }
        i = i + 1;
    }
    proof {
        assert(out@ =~= subst_char(s@, c, r@));
    }
    out
}

pub fn caret_rewrite_vec(s: &Vec<char>) -> (out: Vec<char>)
    ensures
        out@ == caret_rewrite(s@),
{
    let mut out: Vec<char> = Vec::new();
    let mut i: usize = 0;
    while i < s.len()
        invariant
            i <= s@.len(),
            out@ + caret_from(s@, i as int) =~= caret_rewrite(s@),
        decreases s@.len() - i,
    {
        if s[i] == '^' && i + 1 < s.len() {
            out.push('C');
            out.push('T');
            out.push('R');
            out.push('L');
            out.push('-');
            out.push(s[i + 1]);
            i = i + 2;
        } else {
            out.push(s[i]);
            i = i + 1;
        }
    }
    proof {
        assert(out@ =~= caret_rewrite(s@));
    }
    out
}

pub fn ctrl_underscore_vec(s: &Vec<char>) -> (out: Vec<char>)
    ensures
        out@ == ctrl_underscore(s@),
{
    let mut out: Vec<char> = Vec::new();
    let mut i: usize = 0;
    while i < s.len()
        invariant
            i <= s@.len(),
            out@ + ctrl_from(s@, i as int) =~= ctrl_underscore(s@),
        decreases s@.len() - i,
    {
        let tok = s.len() - i >= 7 && s[i] == 'C' && s[i + 1] == 'T' && s[i + 2] == 'R' && s[i
            + 3] == 'L' && s[i + 4] == '-' && s[i + 6] != '_';
        if tok {
            proof {
                assert(ctrl_tok_at(s@, i as int));
            }
            let ghost out0 = out@;
            out.push(s[i]);
            out.push(s[i + 1]);
            out.push(s[i + 2]);
            out.push(s[i + 3]);
            out.push(s[i + 4]);
            out.push(s[i + 5]);
            out.push('_');
            out.push(s[i + 6]);
            proof {
                assert(out@ =~= out0 + (s@.subrange(i as int, i + 6) + seq!['_', s@[i + 6]]));
            }
            i = i + 7;
        } else {
            out.push(s[i]);
            i = i + 1;
        }
    }
    proof {
        assert(out@ =~= ctrl_underscore(s@));
    }
    out
}

/// The full-string replacement table, if the query is one of its keys.
pub fn full_replacement_vec(q: &Vec<char>) -> (r: Option<Vec<char>>)
    ensures
        match r {
            Some(w) => full_replacement(q@) == Some(w@),
            None => full_replacement(q@) is None,
        },
{
    let k1: Vec<char> = vec!['*'];
    proof {
        assert(k1@ =~= seq!['*']);
    }
    if chars_eq(q, &k1) {
        let w: Vec<char> = vec!['s', 't', 'a', 'r'];
        proof {
            assert(w@ =~= seq!['s', 't', 'a', 'r']);
        }
        return Some(w);
    }
    let k2: Vec<char> = vec!['*', '*'];
    proof {
        assert(k2@ =~= seq!['*', '*']);
    }
    if chars_eq(q, &k2) {
        let w: Vec<char> = vec!['s', 't', 'a', 'r', 's', 't', 'a', 'r'];
        proof {
            assert(w@ =~= seq!['s', 't', 'a', 'r', 's', 't', 'a', 'r']);
        }
        return Some(w);
    }
    let k3: Vec<char> = vec!['"', '*'];
    proof {
        assert(k3@ =~= seq!['"', '*']);
    }
    if chars_eq(q, &k3) {
        let w: Vec<char> = vec!['q', 'u', 'o', 't', 'e', 's', 't', 'a', 'r'];
        proof {
            assert(w@ =~= seq!['q', 'u', 'o', 't', 'e', 's', 't', 'a', 'r']);
        }
        return Some(w);
    }
    let k4: Vec<char> = vec!['/', '*'];
    proof {
        assert(k4@ =~= seq!['/', '*']);
    }
    if chars_eq(q, &k4) {
        let w: Vec<char> = vec!['/', 's', 't', 'a', 'r'];
        proof {
            assert(w@ =~= seq!['/', 's', 't', 'a', 'r']);
        }
        return Some(w);
    }
    let k5: Vec<char> = vec!['/', '\\', '*'];
    proof {
        assert(k5@ =~= seq!['/', '\\', '*']);
    }
    if chars_eq(q, &k5) {
        let w: Vec<char> = vec!['/', '\\', 's', 't', 'a', 'r'];
        proof {
            assert(w@ =~= seq!['/', '\\', 's', 't', 'a', 'r']);
        }
        return Some(w);
    }
    let k6: Vec<char> = vec!['[', '*'];
    proof {
        assert(k6@ =~= seq!['[', '*']);
    }
    if chars_eq(q, &k6) {
        let w: Vec<char> = vec!['[', 's', 't', 'a', 'r'];
        proof {
            assert(w@ =~= seq!['[', 's', 't', 'a', 'r']);
        }
        return Some(w);
    }
    let k7: Vec<char> = vec![']', '*'];
    proof {
        assert(k7@ =~= seq![']', '*']);
    }
    if chars_eq(q, &k7) {
        let w: Vec<char> = vec![']', 's', 't', 'a', 'r'];
        proof {
            assert(w@ =~= seq![']', 's', 't', 'a', 'r']);
        }
        return Some(w);
    }
    let k8: Vec<char> = vec!['g', '*'];
    proof {
        assert(k8@ =~= seq!['g', '*']);
    }
    if chars_eq(q, &k8) {
        let w: Vec<char> = vec!['g', 's', 't', 'a', 'r'];
        proof {
            assert(w@ =~= seq!['g', 's', 't', 'a', 'r']);
        }
        return Some(w);
    }
    None
}

pub proof fn lemma_subst_from_id(s: Seq<char>, i: int, c: char, r: Seq<char>)
    requires
        0 <= i <= s.len(),
        forall|k: int| i <= k < s.len() ==> s[k] != c,
    ensures
        subst_from(s, i, c, r) =~= s.subrange(i, s.len() as int),
    decreases s.len() - i,
{
    if i < s.len() {
        lemma_subst_from_id(s, i + 1, c, r);
    }
}

/// Substitution of a character that does not occur leaves the text as it
/// was.
pub proof fn lemma_subst_id(s: Seq<char>, c: char, r: Seq<char>)
    requires
        forall|k: int| 0 <= k < s.len() ==> s[k] != c,
    ensures
        subst_char(s, c, r) == s,
{
    lemma_subst_from_id(s, 0, c, r);
    assert(subst_char(s, c, r) =~= s);
}

pub proof fn lemma_caret_from_id(s: Seq<char>, i: int)
    requires
        0 <= i <= s.len(),
        forall|k: int| i <= k < s.len() ==> s[k] != '^',
    ensures
        caret_from(s, i) =~= s.subrange(i, s.len() as int),
    decreases s.len() - i,
{
    if i < s.len() {
        lemma_caret_from_id(s, i + 1);
    }
}

/// The caret rewrite leaves a text without carets as it was.
pub proof fn lemma_caret_id(s: Seq<char>)
    requires
        forall|k: int| 0 <= k < s.len() ==> s[k] != '^',
    ensures
        caret_rewrite(s) == s,
{
    lemma_caret_from_id(s, 0);
    assert(caret_rewrite(s) =~= s);
}

pub proof fn lemma_ctrl_from_id(s: Seq<char>, i: int)
    requires
        0 <= i <= s.len(),
        forall|k: int| i <= k < s.len() ==> s[k] != '-',
    ensures
        ctrl_from(s, i) =~= s.subrange(i, s.len() as int),
    decreases s.len() - i,
{
    if i < s.len() {
        assert(!ctrl_tok_at(s, i)) by {
            if ctrl_tok_at(s, i) {
                assert(s[i + 4] == '-');
            }
        }
        lemma_ctrl_from_id(s, i + 1);
    }
}

pub proof fn lemma_ctrl_from_short(s: Seq<char>, i: int)
    requires
        0 <= i <= s.len(),
        s.len() < 7,
    ensures
        ctrl_from(s, i) =~= s.subrange(i, s.len() as int),
    decreases s.len() - i,
{
    if i < s.len() {
        lemma_ctrl_from_short(s, i + 1);
    }
}

/// The underscore insertion leaves a text shorter than a `CTRL-x` token
/// and its follower as it was.
pub proof fn lemma_ctrl_id_short(s: Seq<char>)
    requires
        s.len() < 7,
    ensures
        ctrl_underscore(s) == s,
{
    lemma_ctrl_from_short(s, 0);
    assert(ctrl_underscore(s) =~= s);
}

/// The underscore insertion leaves a text without dashes as it was, since
/// every `CTRL-x` token holds a dash.
pub proof fn lemma_ctrl_id(s: Seq<char>)
    requires
        forall|k: int| 0 <= k < s.len() ==> s[k] != '-',
    ensures
        ctrl_underscore(s) == s,
{
    lemma_ctrl_from_id(s, 0);
    assert(ctrl_underscore(s) =~= s);
}

/// Every key of the full-string replacement table holds an asterisk, so a
/// query without one is not replaced wholesale.
pub proof fn lemma_full_replacement_no_star(q: Seq<char>)
    requires
        forall|k: int| 0 <= k < q.len() ==> q[k] != '*',
    ensures
        full_replacement(q) is None,
{
    assert(q != seq!['*']) by {
        if q == seq!['*'] {
            assert(q[0] == '*');
        }
    }
    assert(q != seq!['*', '*']) by {
        if q == seq!['*', '*'] {
            assert(q[0] == '*');
        }
    }
    assert(q != seq!['"', '*']) by {
        if q == seq!['"', '*'] {
            assert(q[1] == '*');
        }
    }
    assert(q != seq!['/', '*']) by {
        if q == seq!['/', '*'] {
            assert(q[1] == '*');
        }
    }
    assert(q != seq!['/', '\\', '*']) by {
        if q == seq!['/', '\\', '*'] {
            assert(q[2] == '*');
        }
    }
    assert(q != seq!['[', '*']) by {
        if q == seq!['[', '*'] {
            assert(q[1] == '*');
        }
    }
    assert(q != seq![']', '*']) by {
        if q == seq![']', '*'] {
            assert(q[1] == '*');
        }
    }
    assert(q != seq!['g', '*']) by {
        if q == seq!['g', '*'] {
            assert(q[1] == '*');
        }
    }
}

/// A query of word characters only is left exactly as it is by every
/// rewrite: no table key, quote, bar, caret or dash is a word character.
pub proof fn lemma_working_name_word(q: Seq<char>)
    requires
        forall|k: int| 0 <= k < q.len() ==> crate::chars::is_word(q[k]),
    ensures
        working_name(q) == q,
{
    assert forall|k: int| 0 <= k < q.len() implies q[k] != '*' by {
        assert(crate::chars::is_word(q[k]));
    }
    lemma_full_replacement_no_star(q);
    assert forall|k: int| 0 <= k < q.len() implies q[k] != '"' && q[k] != '|' && q[k] != '^'
        && q[k] != '-' by {
        assert(crate::chars::is_word(q[k]));
    }
    lemma_subst_id(q, '"', quote_word());
    lemma_subst_id(q, '|', bar_word());
    lemma_caret_id(q);
    lemma_ctrl_id(q);
}

/// No wildcard character occurs in the text.
pub open spec fn wild_free(s: Seq<char>) -> bool {
    forall|k: int| 0 <= k < s.len() ==> s[k] != '*' && s[k] != '?'
}

pub proof fn lemma_subst_from_wild_free(s: Seq<char>, i: int, c: char, r: Seq<char>)
    requires
        wild_free(s),
        wild_free(r),
    ensures
        wild_free(subst_from(s, i, c, r)),
    decreases s.len() - i,
{
    if 0 <= i < s.len() {
        lemma_subst_from_wild_free(s, i + 1, c, r);
    }
}

pub proof fn lemma_caret_from_wild_free(s: Seq<char>, i: int)
    requires
        wild_free(s),
    ensures
        wild_free(caret_from(s, i)),
    decreases s.len() - i,
{
    if 0 <= i < s.len() {
        if s[i] == '^' && i + 1 < s.len() {
            lemma_caret_from_wild_free(s, i + 2);
        } else {
            lemma_caret_from_wild_free(s, i + 1);
        }
    }
}

pub proof fn lemma_ctrl_from_wild_free(s: Seq<char>, i: int)
    requires
        wild_free(s),
    ensures
        wild_free(ctrl_from(s, i)),
    decreases s.len() - i,
{
    if 0 <= i < s.len() {
        if ctrl_tok_at(s, i) {
            lemma_ctrl_from_wild_free(s, i + 7);
        } else {
            lemma_ctrl_from_wild_free(s, i + 1);
        }
    }
}

/// No rewrite introduces a wildcard character: the working name of a query
/// without `*` and `?` has none either.
pub proof fn lemma_working_name_wild_free(q: Seq<char>)
    requires
        wild_free(q),
    ensures
        wild_free(working_name(q)),
{
    lemma_full_replacement_no_star(q);
    assert(wild_free(quote_word()));
    assert(wild_free(bar_word()));
    lemma_subst_from_wild_free(q, 0, '"', quote_word());
    lemma_subst_from_wild_free(subst_char(q, '"', quote_word()), 0, '|', bar_word());
    lemma_caret_from_wild_free(subst_char(subst_char(q, '"', quote_word()), '|', bar_word()), 0);
    lemma_ctrl_from_wild_free(
        caret_rewrite(subst_char(subst_char(q, '"', quote_word()), '|', bar_word())),
        0,
    );
}

/// The working name of a raw query, as `working_name` defines it.
pub fn working_name_vec(q: &Vec<char>) -> (out: Vec<char>)
    ensures
        out@ == working_name(q@),
{
    match full_replacement_vec(q) {
        Some(w) => w,
        None => {
            let quote: Vec<char> = vec!['q', 'u', 'o', 't', 'e'];
            let bar: Vec<char> = vec!['b', 'a', 'r'];
            proof {
                assert(quote@ =~= quote_word());
                assert(bar@ =~= bar_word());
            }
            let a = subst_vec(q, '"', &quote);
            let b = subst_vec(&a, '|', &bar);
            let c = caret_rewrite_vec(&b);
            ctrl_underscore_vec(&c)
        },
    }
}

} // verus!
