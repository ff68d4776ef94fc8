//! Properties of the resolution engine, stated and proved once and for
//! all: the full-string replacement table acts before escaping, the
//! case-insensitive pattern ignores the query's case, the wildcard pattern
//! of a wildcard-free query never fires on a named line, and an exact
//! tag-name match always wins.

use vstd::prelude::*;

use crate::chars::{is_alpha, is_word, lemma_case_chars, to_lower};
use crate::help::{
    best, help_spec, lemma_best, line_end, line_fields, names_from, scan_from, Candidate,
};
use crate::matching::{first_from, first_pos, lemma_first_from, match_at, one_match};
use crate::pattern::{
    has_wild, icase_item_of, icase_items, lemma_icase_match_window, lemma_lit_match_refl,
    lemma_lit_match_window, lit_items, pattern_hit, patterns_of, PatternsModel,
};
use crate::rewrite::{
    full_replacement, lemma_working_name_wild_free, lemma_working_name_word, wild_free,
    working_name,
};
use crate::score::{alpha_count, lemma_alpha_count_window_ge, match_score};
use crate::text::find_from;

verus! {

/// Two texts that differ only in ASCII letter case.
pub open spec fn case_variants(a: Seq<char>, b: Seq<char>) -> bool {
    a.len() == b.len() && forall|k: int| 0 <= k < a.len() ==> to_lower(a[k]) == to_lower(b[k])
}

/// The case-insensitive pattern ignores the case of the working name: two
/// working names that differ only in letter case derive the same pattern.
pub proof fn lemma_icase_ignores_case(a: Seq<char>, b: Seq<char>)
    requires
        case_variants(a, b),
    ensures
        icase_items(a) == icase_items(b),
{
    assert forall|k: int| 0 <= k < a.len() implies icase_item_of(a[k]) == icase_item_of(b[k]) by {
        let x = a[k];
        let y = b[k];
        if is_alpha(x) {
            lemma_case_chars(x);
            if !is_alpha(y) {
                assert(to_lower(y) == y);
                assert(is_alpha(to_lower(x)));
            }
            lemma_case_chars(y);
        } else {
            if is_alpha(y) {
                lemma_case_chars(y);
                assert(to_lower(x) == x);
                assert(is_alpha(to_lower(y)));
            }
        }
    }
    assert(icase_items(a) =~= icase_items(b));
}

proof fn lemma_caret_working(c: char)
    requires
        is_alpha(c),
    ensures
        working_name(seq!['^', c]) == seq!['C', 'T', 'R', 'L', '-', c],
{
    let q = seq!['^', c];
    assert(q[0] == '^' && q[1] == c);
    assert(full_replacement(q) is None);
    assert forall|k: int| 0 <= k < q.len() implies q[k] != '"' && q[k] != '|' by {
        if k == 1 {
            assert(is_alpha(q[k]));
        }
    }
    crate::rewrite::lemma_subst_id(q, '"', crate::rewrite::quote_word());
    crate::rewrite::lemma_subst_id(q, '|', crate::rewrite::bar_word());
    assert(crate::rewrite::caret_rewrite(q) =~= seq!['C', 'T', 'R', 'L', '-', c]) by {
        assert(crate::rewrite::caret_from(q, 2) =~= Seq::<char>::empty());
    }
    crate::rewrite::lemma_ctrl_id_short(seq!['C', 'T', 'R', 'L', '-', c]);
}

/// A caret query is resolved case-insensitively: `^c` and the other-case
/// spelling of the same letter derive one and the same case-insensitive
/// pattern.
pub proof fn lemma_caret_query_ignores_case(c: char, d: char)
    requires
        is_alpha(c),
        is_alpha(d),
        to_lower(c) == to_lower(d),
    ensures
        patterns_of(seq!['^', c]).icase == patterns_of(seq!['^', d]).icase,
{
    lemma_caret_working(c);
    lemma_caret_working(d);
    let a = seq!['C', 'T', 'R', 'L', '-', c];
    let b = seq!['C', 'T', 'R', 'L', '-', d];
    assert(case_variants(a, b)) by {
        assert forall|k: int| 0 <= k < a.len() implies to_lower(a[k]) == to_lower(b[k]) by {
            if k < 5 {
                assert(a[k] == b[k]);
            } else {
                assert(a[k] == c && b[k] == d);
            }
        }
    }
    lemma_icase_ignores_case(a, b);
}

/// The full-string replacement acts before any escaping: the query `*`
/// derives exactly the patterns of the literal query `star`, and so
/// resolves as `star` does against every database.
pub proof fn lemma_star_replacement(t: Seq<char>)
    ensures
        patterns_of("*"@) == patterns_of("star"@),
        help_spec("*"@, t) == help_spec("star"@, t),
{
    reveal_strlit("*");
    reveal_strlit("star");
    assert("*"@ =~= seq!['*']);
    assert("star"@ =~= seq!['s', 't', 'a', 'r']);
    assert(full_replacement("*"@) == Some(seq!['s', 't', 'a', 'r']));
    assert forall|k: int| 0 <= k < "star"@.len() implies is_word("star"@[k]) by {
        if k == 0 {
            assert("star"@[k] == 's');
        } else if k == 1 {
            assert("star"@[k] == 't');
        } else if k == 2 {
            assert("star"@[k] == 'a');
        } else {
            assert("star"@[k] == 'r');
        }
    }
    lemma_working_name_word("star"@);
    assert(working_name("*"@) =~= working_name("star"@));
}

/// A candidate that the literal or the case-insensitive pattern produced:
/// its stored score belongs to a hit whose priority is at most 5000, so
/// the wildcard path played no part in it.
pub open spec fn no_wild_cand(p: PatternsModel, c: Candidate) -> bool {
    match pattern_hit(p, c.name) {
        Some(h) => h.0 <= 5000 && c.score == match_score(h.0, c.name, h.1),
        None => false,
    }
}

proof fn lemma_scan_no_wild(p: PatternsModel, t: Seq<char>, i: int)
    requires
        p.wildcard is None,
        forall|ni: int| 0 <= ni < names_from(t, i).len() ==> (#[trigger] names_from(t, i)[ni]).len()
            > 0,
    ensures
        forall|ci: int| 0 <= ci < scan_from(p, t, i).len() ==> no_wild_cand(
            p,
            #[trigger] scan_from(p, t, i)[ci],
        ),
    decreases t.len() - i,
{
    if 0 <= i <= t.len() {
        let j = find_from(t, '\n', i);
        let e = line_end(t, i, j);
        if e > i {
            let line = t.subrange(i, e);
            let rest: Seq<Candidate> = if j >= t.len() {
                seq![]
            } else {
                scan_from(p, t, j + 1)
            };
            let nrest: Seq<Seq<char>> = if j >= t.len() {
                seq![]
            } else {
                names_from(t, j + 1)
            };
            match line_fields(line) {
                Some(f) => {
                    assert(names_from(t, i) =~= seq![f.0] + nrest);
                    assert(f.0.len() > 0) by {
                        assert(names_from(t, i)[0] == f.0);
                    }
                    assert forall|ni: int| 0 <= ni < nrest.len() implies (#[trigger] nrest[ni]).len()
                        > 0 by {
                        assert(names_from(t, i)[ni + 1] == nrest[ni]);
                    }
                    if j < t.len() {
                        lemma_scan_no_wild(p, t, j + 1);
                    }
                    match pattern_hit(p, f.0) {
                        Some(h) => {
                            let c0 = Candidate {
                                name: f.0,
                                file: f.1,
                                score: match_score(h.0, f.0, h.1),
                            };
                            assert(scan_from(p, t, i) =~= seq![c0] + rest);
                            assert(h.0 <= 5000);
                            assert(no_wild_cand(p, c0));
                            assert forall|ci: int| 0 <= ci < scan_from(p, t, i).len() implies
                                no_wild_cand(p, #[trigger] scan_from(p, t, i)[ci]) by {
                                if ci > 0 {
                                    assert(scan_from(p, t, i)[ci] == rest[ci - 1]);
                                }
                            }
                        },
                        None => {
                            assert(scan_from(p, t, i) =~= rest);
                        },
                    }
                },
                None => {
                    assert(names_from(t, i) =~= nrest);
                    if j < t.len() {
                        lemma_scan_no_wild(p, t, j + 1);
                    }
                    assert(scan_from(p, t, i) =~= rest);
                },
            }
        }
    }
}

/// Wildcard inertness: a query without `*` and `?` derives the wildcard
/// pattern that matches only an empty name, and against a database whose
/// scanned lines all name a non-empty tag, every candidate of the scan
/// comes from the literal or the case-insensitive pattern.
pub proof fn lemma_wildcard_inert(q: Seq<char>, t: Seq<char>)
    requires
        wild_free(q),
        forall|ni: int| 0 <= ni < names_from(t, 0).len() ==> (#[trigger] names_from(t, 0)[ni]).len()
            > 0,
    ensures
        patterns_of(q).wildcard is None,
        forall|ci: int|
            0 <= ci < scan_from(patterns_of(q), t, 0).len() ==> no_wild_cand(
                patterns_of(q),
                #[trigger] scan_from(patterns_of(q), t, 0)[ci],
            ),
{
    lemma_working_name_wild_free(q);
    assert(!has_wild(working_name(q))) by {
        if has_wild(working_name(q)) {
            let k = choose|k: int|
                0 <= k < working_name(q).len() && (working_name(q)[k] == '*' || working_name(q)[k]
                    == '?');
            assert(working_name(q)[k] != '*' && working_name(q)[k] != '?');
        }
    }
    lemma_scan_no_wild(patterns_of(q), t, 0);
}

/// The score that the query itself reaches as a tag name: its length plus
/// 100 for each of its letters.  No candidate line can score below it.
pub open spec fn exact_base(q: Seq<char>) -> nat {
    q.len() + 100 * alpha_count(q)
}

/// Line-level dominance: when the query is a non-empty plain word, any hit
/// on a non-empty tag name scores at least `exact_base(q)`, and reaches it
/// only when the name is the query itself.
proof fn lemma_candidate_dominance(q: Seq<char>, name: Seq<char>, h: (nat, int))
    requires
        q.len() > 0,
        forall|k: int| 0 <= k < q.len() ==> is_word(#[trigger] q[k]),
        name.len() > 0,
        working_name(q) == q,
        pattern_hit(patterns_of(q), name) == Some(h),
    ensures
        match_score(h.0, name, h.1) >= exact_base(q),
        match_score(h.0, name, h.1) == exact_base(q) ==> name == q,
{
    let p = patterns_of(q);
    assert(!has_wild(q)) by {
        if has_wild(q) {
            let k = choose|k: int| 0 <= k < q.len() && (q[k] == '*' || q[k] == '?');
            assert(is_word(q[k]));
        }
    }
    assert(p.escaped == lit_items(q));
    assert(p.icase == icase_items(q));
    assert(p.wildcard is None);
    let base = exact_base(q);
    match first_pos(p.escaped, name) {
        Some(m) => {
            lemma_first_from(lit_items(q), name, 0);
            assert(match_at(lit_items(q), name, m));
            lemma_lit_match_window(q, name, m);
            assert(0 <= m && m + q.len() <= name.len());
            assert forall|jj: int| 0 <= jj < q.len() && is_alpha(q[jj]) implies is_alpha(
                name[m + jj],
            ) by {
                assert(name[m + jj] == q[jj]);
            }
            lemma_alpha_count_window_ge(q, name, m);
            let s0 = h.0 + name.len() + 100 * alpha_count(name);
            assert(h.0 == 0 && h.1 == m);
            assert(s0 >= base);
            assert(match_score(h.0, name, h.1) >= s0);
            if match_score(h.0, name, h.1) == base {
                assert(s0 == base);
                assert(name.len() == q.len());
                assert(m == 0);
                assert(name =~= q);
            }
        },
        None => {
            match first_pos(p.icase, name) {
                Some(m) => {
                    lemma_first_from(icase_items(q), name, 0);
                    assert(match_at(icase_items(q), name, m));
                    lemma_icase_match_window(q, name, m);
                    assert(0 <= m && m + q.len() <= name.len());
                    assert forall|jj: int| 0 <= jj < q.len() && is_alpha(q[jj]) implies is_alpha(
                        name[m + jj],
                    ) by {
                        assert(one_match(icase_item_of(q[jj]), name[m + jj]));
                        lemma_case_chars(q[jj]);
                    }
                    lemma_alpha_count_window_ge(q, name, m);
                    let s0 = h.0 + name.len() + 100 * alpha_count(name);
                    assert(h.0 == 5000 && h.1 == m);
                    assert(s0 >= 5000 + base);
                    assert(match_score(h.0, name, h.1) >= s0);
                },
                None => {
                    assert(false);
                },
            }
        },
    }
}

/// The query, standing as a tag name, is hit by its own literal pattern at
/// position 0 and scores exactly `exact_base(q)`.
proof fn lemma_exact_hit(q: Seq<char>)
    requires
        q.len() > 0,
        working_name(q) == q,
    ensures
        pattern_hit(patterns_of(q), q) matches Some(h) && h.0 == 0 && h.1 == 0,
        match_score(0, q, 0) == exact_base(q),
{
    lemma_lit_match_refl(q, q, 0);
    assert(match_at(lit_items(q), q, 0));
    assert(first_from(lit_items(q), q, 0) == Some(0int));
}

/// Scan-level dominance and existence for a plain-word query.
proof fn lemma_scan_exact(q: Seq<char>, t: Seq<char>, i: int)
    requires
        q.len() > 0,
        forall|k: int| 0 <= k < q.len() ==> is_word(#[trigger] q[k]),
        working_name(q) == q,
        forall|ni: int| 0 <= ni < names_from(t, i).len() ==> (#[trigger] names_from(t, i)[ni]).len()
            > 0,
    ensures
        forall|ci: int|
            0 <= ci < scan_from(patterns_of(q), t, i).len() ==> ((#[trigger] scan_from(
                patterns_of(q),
                t,
                i,
            )[ci]).score >= exact_base(q) && (scan_from(patterns_of(q), t, i)[ci].score
                == exact_base(q) ==> scan_from(patterns_of(q), t, i)[ci].name == q)),
        names_from(t, i).contains(q) ==> exists|ci: int|
            0 <= ci < scan_from(patterns_of(q), t, i).len() && (#[trigger] scan_from(
                patterns_of(q),
                t,
                i,
            )[ci]).score == exact_base(q) && scan_from(patterns_of(q), t, i)[ci].name == q,
    decreases t.len() - i,
{
    let p = patterns_of(q);
    if 0 <= i <= t.len() {
        let j = find_from(t, '\n', i);
        let e = line_end(t, i, j);
        if e > i {
            let line = t.subrange(i, e);
            let rest: Seq<Candidate> = if j >= t.len() {
                seq![]
            } else {
                scan_from(p, t, j + 1)
            };
            let nrest: Seq<Seq<char>> = if j >= t.len() {
                seq![]
            } else {
                names_from(t, j + 1)
            };
            match line_fields(line) {
                Some(f) => {
                    assert(names_from(t, i) =~= seq![f.0] + nrest);
                    assert(f.0.len() > 0) by {
                        assert(names_from(t, i)[0] == f.0);
                    }
                    assert forall|ni: int| 0 <= ni < nrest.len() implies (#[trigger] nrest[ni]).len()
                        > 0 by {
                        assert(names_from(t, i)[ni + 1] == nrest[ni]);
                    }
                    if j < t.len() {
                        lemma_scan_exact(q, t, j + 1);
                    }
                    if nrest.contains(q) {
                        let wi = choose|wi: int|
                            0 <= wi < rest.len() && (#[trigger] rest[wi]).score == exact_base(q)
                                && rest[wi].name == q;
                        assert(0 <= wi < rest.len() && rest[wi].score == exact_base(q)
                            && rest[wi].name == q);
                    }
                    match pattern_hit(p, f.0) {
                        Some(h) => {
                            let c0 = Candidate {
                                name: f.0,
                                file: f.1,
                                score: match_score(h.0, f.0, h.1),
                            };
                            assert(scan_from(p, t, i) =~= seq![c0] + rest);
                            lemma_candidate_dominance(q, f.0, h);
                            assert forall|ci: int|
                                0 <= ci < scan_from(p, t, i).len() implies ((#[trigger] scan_from(
                                p,
                                t,
                                i,
                            )[ci]).score >= exact_base(q) && (scan_from(p, t, i)[ci].score
                                == exact_base(q) ==> scan_from(p, t, i)[ci].name == q)) by {
                                if ci > 0 {
                                    assert(scan_from(p, t, i)[ci] == rest[ci - 1]);
                                }
                            }
                            if names_from(t, i).contains(q) {
                                let ni = choose|ni: int|
                                    0 <= ni < names_from(t, i).len() && names_from(t, i)[ni] == q;
                                if ni == 0 {
                                    assert(f.0 == q);
                                    lemma_exact_hit(q);
                                    assert(h.0 == 0 && h.1 == 0);
                                    assert(scan_from(p, t, i)[0] == c0);
                                    assert(c0.score == exact_base(q) && c0.name == q);
                                } else {
                                    assert(nrest[ni - 1] == q);
                                    assert(nrest.contains(q));
                                    let wi = choose|wi: int|
                                        0 <= wi < rest.len() && (#[trigger] rest[wi]).score
                                            == exact_base(q) && rest[wi].name == q;
                                    assert(scan_from(p, t, i)[wi + 1] == rest[wi]);
                                }
                            }
                        },
                        None => {
                            assert(scan_from(p, t, i) =~= rest);
                            if names_from(t, i).contains(q) {
                                let ni = choose|ni: int|
                                    0 <= ni < names_from(t, i).len() && names_from(t, i)[ni] == q;
                                if ni == 0 {
                                    assert(f.0 == q);
                                    lemma_exact_hit(q);
                                    assert(false);
                                } else {
                                    assert(nrest[ni - 1] == q);
                                    assert(nrest.contains(q));
                                }
                            }
                        },
                    }
                },
                None => {
                    assert(names_from(t, i) =~= nrest);
                    if j < t.len() {
                        lemma_scan_exact(q, t, j + 1);
                    }
                    assert(scan_from(p, t, i) =~= rest);
                    if names_from(t, i).contains(q) {
                        let ni = choose|ni: int|
                            0 <= ni < names_from(t, i).len() && names_from(t, i)[ni] == q;
                        assert(nrest[ni] == q);
                        assert(nrest.contains(q));
                    }
                },
            }
        }
    }
}

/// An exact tag-name match always wins: when the query is a non-empty
/// plain word (letters, digits and underscores only), every scanned line
/// names a non-empty tag, and some scanned line's tag name equals the
/// query, resolution yields a tag named exactly like the query.
pub proof fn lemma_exact_match_wins(q: Seq<char>, t: Seq<char>)
    requires
        q.len() > 0,
        forall|k: int| 0 <= k < q.len() ==> is_word(#[trigger] q[k]),
        names_from(t, 0).contains(q),
        forall|ni: int| 0 <= ni < names_from(t, 0).len() ==> (#[trigger] names_from(t, 0)[ni]).len()
            > 0,
    ensures
        help_spec(q, t) matches Some(c) && c.name == q && c.score == exact_base(q),
{
    lemma_working_name_word(q);
    lemma_scan_exact(q, t, 0);
    let cs = scan_from(patterns_of(q), t, 0);
    let wi = choose|ci: int|
        0 <= ci < cs.len() && (#[trigger] cs[ci]).score == exact_base(q) && cs[ci].name == q;
    assert(0 <= wi < cs.len() && cs[wi].score == exact_base(q) && cs[wi].name == q);
    lemma_best(cs);
    match best(cs) {
        Some(b) => {
            let bk = choose|k: int| 0 <= k < cs.len() && b == cs[k];
            assert(b.score >= exact_base(q)) by {
                assert(b == cs[bk]);
            }
            assert(b.score <= cs[wi].score);
            assert(b.score == exact_base(q));
            assert(cs[bk].name == q);
        },
        None => {
            assert(false);
        },
    }
}

} // verus!
