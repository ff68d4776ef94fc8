//! The three search patterns derived from a query, and their generation.

use vstd::prelude::*;

use crate::chars::{alpha_char, is_alpha, lower_char, to_lower, to_upper, upper_char};
use crate::matching::{first_match, first_pos, lemma_first_from, match_at, one_match, PatItem};
use crate::rewrite::working_name;
use crate::rewrite::working_name_vec;
use crate::text::str_to_chars;

verus! {

/// The wildcard pattern.  A query without `*` and `?` gets a wildcard
/// pattern that matches nothing but an empty tag name, so that wildcard
/// matching never fires spuriously.
#[derive(Debug)]
pub enum Wildcard {
    EmptyOnly,
    Glob(Vec<PatItem>),
}

/// The three patterns derived once from a query: a literal one, a
/// case-insensitive one, and a wildcard one.
#[derive(Debug)]
pub struct Patterns {
    pub(crate) escaped: Vec<PatItem>,
    pub(crate) icase: Vec<PatItem>,
    pub(crate) wildcard: Wildcard,
}

/// The mathematical content of a `Patterns` value.  `wildcard` is `None`
/// when the wildcard pattern matches only the empty tag name.
pub struct PatternsModel {
    pub escaped: Seq<PatItem>,
    pub icase: Seq<PatItem>,
    pub wildcard: Option<Seq<PatItem>>,
}

impl View for Patterns {
    type V = PatternsModel;

    closed spec fn view(&self) -> PatternsModel {
        PatternsModel {
            escaped: self.escaped@,
            icase: self.icase@,
            wildcard: match self.wildcard {
                Wildcard::EmptyOnly => None,
                Wildcard::Glob(v) => Some(v@),
            },
        }
    }
}

/// A literal item for one character.
pub open spec fn lit_item_of(c: char) -> PatItem {
    PatItem::Lit(c)
}

/// The case-insensitive item for one character: an ASCII letter becomes a
/// class holding its lowercase and uppercase form.
pub open spec fn icase_item_of(c: char) -> PatItem {
    if is_alpha(c) {
        PatItem::Class(to_lower(c), to_upper(c))
    } else {
        PatItem::Lit(c)
    }
}

/// The wildcard item for one character: `*` matches any stretch, `?` any
/// one character.
pub open spec fn wild_item_of(c: char) -> PatItem {
    if c == '*' {
        PatItem::AnyStar
    } else if c == '?' {
        PatItem::AnyOne
    } else {
        PatItem::Lit(c)
    }
}

/// The literal pattern of a working name: every character matches itself.
pub open spec fn lit_items(w: Seq<char>) -> Seq<PatItem> {
    Seq::new(w.len(), |i: int| lit_item_of(w[i]))
}

/// The case-insensitive pattern of a working name.
pub open spec fn icase_items(w: Seq<char>) -> Seq<PatItem> {
    Seq::new(w.len(), |i: int| icase_item_of(w[i]))
}

/// The wildcard pattern items of a working name.
pub open spec fn wild_items(w: Seq<char>) -> Seq<PatItem> {
    Seq::new(w.len(), |i: int| wild_item_of(w[i]))
}

/// Whether the working name contains a wildcard character.
pub open spec fn has_wild(w: Seq<char>) -> bool {
    exists|i: int| 0 <= i < w.len() && (w[i] == '*' || w[i] == '?')
}

/// The patterns derived from a raw query.
pub open spec fn patterns_of(q: Seq<char>) -> PatternsModel {
    let w = working_name(q);
    PatternsModel {
        escaped: lit_items(w),
        icase: icase_items(w),
        wildcard: if has_wild(w) {
            Some(wild_items(w))
        } else {
            None
        },
    }
}

fn lit_items_vec(w: &Vec<char>) -> (out: Vec<PatItem>)
    ensures
        out@ == lit_items(w@),
{
    let mut out: Vec<PatItem> = Vec::new();
    let mut i: usize = 0;
    while i < w.len()
        invariant
            i <= w@.len(),
            out@ =~= lit_items(w@).take(i as int),
        decreases w@.len() - i,
    {
        out.push(PatItem::Lit(w[i]));
        proof {
            assert(out@.last() == lit_item_of(w@[i as int]));
        }
        i = i + 1;
    }
    proof {
        assert(out@ =~= lit_items(w@));
    }
    out
}

fn icase_items_vec(w: &Vec<char>) -> (out: Vec<PatItem>)
    ensures
        out@ == icase_items(w@),
{
    let mut out: Vec<PatItem> = Vec::new();
    let mut i: usize = 0;
    while i < w.len()
        invariant
            i <= w@.len(),
            out@ =~= icase_items(w@).take(i as int),
        decreases w@.len() - i,
    {
        let c = w[i];
        if alpha_char(c) {
            out.push(PatItem::Class(lower_char(c), upper_char(c)));
        } else {
            out.push(PatItem::Lit(c));
        }
        proof {
            assert(out@.last() == icase_item_of(w@[i as int]));
        }
        i = i + 1;
    }
    proof {
        assert(out@ =~= icase_items(w@));
    }
    out
}

fn wild_items_vec(w: &Vec<char>) -> (out: Vec<PatItem>)
    ensures
        out@ == wild_items(w@),
{
    let mut out: Vec<PatItem> = Vec::new();
    let mut i: usize = 0;
    while i < w.len()
        invariant
            i <= w@.len(),
            out@ =~= wild_items(w@).take(i as int),
        decreases w@.len() - i,
    {
        let c = w[i];
        if c == '*' {
            out.push(PatItem::AnyStar);
        } else if c == '?' {
            out.push(PatItem::AnyOne);
        } else {
            out.push(PatItem::Lit(c));
        }
        proof {
            assert(out@.last() == wild_item_of(w@[i as int]));
        }
        i = i + 1;
    }
    proof {
        assert(out@ =~= wild_items(w@));
    }
    out
}

fn has_wild_vec(w: &Vec<char>) -> (r: bool)
    ensures
        r == has_wild(w@),
{
    let mut i: usize = 0;
    while i < w.len()
        invariant
            i <= w@.len(),
            forall|k: int| 0 <= k < i ==> !(w@[k] == '*' || w@[k] == '?'),
        decreases w@.len() - i,
    {
        if w[i] == '*' || w[i] == '?' {
            return true;
        }
        i = i + 1;
    }
    false
}

/// A literal pattern that matches at `m` pins the window there to the
/// working name, character for character.
pub proof fn lemma_lit_match_window(q: Seq<char>, s: Seq<char>, m: int)
    requires
        match_at(lit_items(q), s, m),
    ensures
        q.len() > 0 ==> 0 <= m && m + q.len() <= s.len(),
        forall|k: int| 0 <= k < q.len() ==> s[m + k] == q[k],
    decreases q.len(),
{
    if q.len() > 0 {
        assert(lit_items(q)[0] == lit_item_of(q[0]));
        assert(lit_items(q).drop_first() =~= lit_items(q.drop_first()));
        lemma_lit_match_window(q.drop_first(), s, m + 1);
        assert forall|k: int| 0 <= k < q.len() implies s[m + k] == q[k] by {
            if k > 0 {
                assert(s[m + 1 + (k - 1)] == q.drop_first()[k - 1]);
            }
        }
    }
}

/// Conversely, the literal pattern matches wherever the window equals the
/// working name.
pub proof fn lemma_lit_match_refl(q: Seq<char>, s: Seq<char>, m: int)
    requires
        0 <= m,
        m + q.len() <= s.len(),
        forall|k: int| 0 <= k < q.len() ==> s[m + k] == q[k],
    ensures
        match_at(lit_items(q), s, m),
    decreases q.len(),
{
    if q.len() > 0 {
        assert(lit_items(q)[0] == lit_item_of(q[0]));
        assert(lit_items(q).drop_first() =~= lit_items(q.drop_first()));
        assert forall|k: int| 0 <= k < q.drop_first().len() implies s[m + 1 + k]
            == q.drop_first()[k] by {
            assert(s[m + (k + 1)] == q[k + 1]);
        }
        lemma_lit_match_refl(q.drop_first(), s, m + 1);
        assert(s[m + 0] == q[0]);
    }
}

/// A case-insensitive pattern that matches at `m` matches the window there
/// item by item.
pub proof fn lemma_icase_match_window(q: Seq<char>, s: Seq<char>, m: int)
    requires
        match_at(icase_items(q), s, m),
    ensures
        q.len() > 0 ==> 0 <= m && m + q.len() <= s.len(),
        forall|k: int| 0 <= k < q.len() ==> one_match(icase_item_of(q[k]), s[m + k]),
    decreases q.len(),
{
    if q.len() > 0 {
        assert(icase_items(q)[0] == icase_item_of(q[0]));
        assert(!(icase_items(q)[0] is AnyStar));
        assert(icase_items(q).drop_first() =~= icase_items(q.drop_first()));
        lemma_icase_match_window(q.drop_first(), s, m + 1);
        assert forall|k: int| 0 <= k < q.len() implies one_match(icase_item_of(q[k]), s[m + k]) by {
            if k > 0 {
                assert(one_match(icase_item_of(q.drop_first()[k - 1]), s[m + 1 + (k - 1)]));
            }
        }
    }
}

/// The first pattern that matches the tag name, tried in priority order:
/// the literal pattern (score priority 0), then the case-insensitive one
/// (priority 5000), then the wildcard one (priority 20000).  Yields the
/// priority and the match position.
pub open spec fn pattern_hit(p: PatternsModel, name: Seq<char>) -> Option<(nat, int)> {
    match first_pos(p.escaped, name) {
        Some(m) => Some((0 as nat, m)),
        None => match first_pos(p.icase, name) {
            Some(m) => Some((5000 as nat, m)),
            None => match p.wildcard {
                Some(items) => match first_pos(items, name) {
                    Some(m) => Some((20000 as nat, m)),
                    None => None,
                },
                None => if name.len() == 0 {
                    Some((20000 as nat, 0))
                } else {
                    None
                },
            },
        },
    }
}

/// Try the three patterns against a tag name in priority order.
pub fn pattern_hit_exec(p: &Patterns, name: &Vec<char>) -> (r: Option<(u128, usize)>)
    ensures
        match r {
            Some(hit) => pattern_hit(p@, name@) == Some((hit.0 as nat, hit.1 as int)) && hit.0
                <= 20000 && hit.1 <= name@.len(),
            None => pattern_hit(p@, name@) is None,
        },
{
    proof {
        lemma_first_from(p@.escaped, name@, 0);
        lemma_first_from(p@.icase, name@, 0);
    }
    if let Some(m) = first_match(&p.escaped, name) {
        return Some((0, m));
    }
    if let Some(m) = first_match(&p.icase, name) {
        return Some((5000, m));
    }
    match &p.wildcard {
        Wildcard::Glob(items) => {
            proof {
                lemma_first_from(items@, name@, 0);
            }
            if let Some(m) = first_match(items, name) {
                return Some((20000, m));
            }
            None
        },
        Wildcard::EmptyOnly => {
            if name.len() == 0 {
                Some((20000, 0))
            } else {
                None
            }
        },
    }
}

/// Derive the three search patterns from a raw query.
///
/// The derivation is total: it always yields a value, and the value is
/// exactly `patterns_of` applied to the query.
pub fn generate_search_patterns(name: &str) -> (r: Option<Patterns>)
    requires
        name@.len() > 0,
    ensures
        r matches Some(p) && p@ == patterns_of(name@),
{
    let q = str_to_chars(name);
    let w = working_name_vec(&q);
    let escaped = lit_items_vec(&w);
    let icase = icase_items_vec(&w);
    let wildcard = if has_wild_vec(&w) {
        Wildcard::Glob(wild_items_vec(&w))
    } else {
        Wildcard::EmptyOnly
    };
    Some(Patterns { escaped, icase, wildcard })
}

} // verus!
