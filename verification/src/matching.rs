//! The pattern matcher: patterns are sequences of single-character items
//! plus an any-length wildcard, matched unanchored with leftmost preference.

use vstd::prelude::*;

verus! {

/// One element of a search pattern.
///
/// `Lit` matches exactly its character, `Class` matches either of its two
/// characters (the lowercase and uppercase form of a letter), `AnyOne`
/// matches any single character, and `AnyStar` matches any stretch of
/// characters, the empty one included.
#[derive(Clone, Copy, Debug)]
pub enum PatItem {
    Lit(char),
    Class(char, char),
    AnyOne,
    AnyStar,
}

/// Whether a single-character item matches `c`.  `AnyStar` is handled by
/// `match_at` and never matches as a single item.
pub open spec fn one_match(it: PatItem, c: char) -> bool {
    match it {
        PatItem::Lit(l) => c == l,
        PatItem::Class(a, b) => c == a || c == b,
        PatItem::AnyOne => true,
        PatItem::AnyStar => false,
    }
}

/// Whether the whole pattern matches some prefix of `s[i..]`.  A leading
/// `AnyStar` either matches nothing or absorbs one character and stays.
pub open spec fn match_at(items: Seq<PatItem>, s: Seq<char>, i: int) -> bool
    decreases items.len(), s.len() - i,
{
    if items.len() == 0 {
        true
    } else if items[0] is AnyStar {
        match_at(items.drop_first(), s, i) || (i < s.len() && match_at(items, s, i + 1))
    } else {
        0 <= i < s.len() && one_match(items[0], s[i]) && match_at(items.drop_first(), s, i + 1)
    }
}

/// A pattern whose head is `AnyStar` matches at `i` exactly when its tail
/// matches at some position from `i` to the end.
pub proof fn lemma_star_exists(items: Seq<PatItem>, s: Seq<char>, i: int)
    requires
        items.len() > 0,
        items[0] is AnyStar,
        0 <= i <= s.len(),
    ensures
        match_at(items, s, i) <==> exists|j: int|
            i <= j <= s.len() && #[trigger] match_at(items.drop_first(), s, j),
    decreases s.len() - i,
{
    let rest = items.drop_first();
    if i < s.len() {
        lemma_star_exists(items, s, i + 1);
        if match_at(items, s, i) {
            if match_at(rest, s, i) {
                assert(i <= i <= s.len() && match_at(rest, s, i));
            } else {
                assert(match_at(items, s, i + 1));
            }
        }
        if exists|j: int| i <= j <= s.len() && #[trigger] match_at(rest, s, j) {
            let j = choose|j: int| i <= j <= s.len() && #[trigger] match_at(rest, s, j);
            if j == i {
                assert(match_at(rest, s, i));
            } else {
                assert(i + 1 <= j <= s.len() && match_at(rest, s, j));
                assert(match_at(items, s, i + 1));
                assert(match_at(items, s, i));
            }
        }
    } else {
        if match_at(items, s, i) {
            assert(match_at(rest, s, i));
        }
        if exists|j: int| i <= j <= s.len() && #[trigger] match_at(rest, s, j) {
            let j = choose|j: int| i <= j <= s.len() && #[trigger] match_at(rest, s, j);
            assert(j == i);
            assert(match_at(items, s, i));
        }
    }
}

/// The first position at or after `i` where the pattern matches, if any.
pub open spec fn first_from(items: Seq<PatItem>, s: Seq<char>, i: int) -> Option<int>
    decreases s.len() - i + 1,
{
    if i > s.len() {
        None
    } else if match_at(items, s, i) {
        Some(i)
    } else {
        first_from(items, s, i + 1)
    }
}

/// The leftmost match position of the pattern in `s`, if any.
pub open spec fn first_pos(items: Seq<PatItem>, s: Seq<char>) -> Option<int> {
    first_from(items, s, 0)
}

pub proof fn lemma_first_from(items: Seq<PatItem>, s: Seq<char>, i: int)
    requires
        0 <= i <= s.len(),
    ensures
        match first_from(items, s, i) {
            Some(m) => i <= m <= s.len() && match_at(items, s, m) && forall|k: int|
                i <= k < m ==> !match_at(items, s, k),
            None => forall|k: int| i <= k <= s.len() ==> !match_at(items, s, k),
        },
    decreases s.len() - i,
{
    if !match_at(items, s, i) {
        if i < s.len() {
            lemma_first_from(items, s, i + 1);
        } else {
            assert(first_from(items, s, i + 1) is None);
        }
    }
}

pub fn item_matches(it: &PatItem, c: char) -> (r: bool)
    ensures
        r == one_match(*it, c),
{
    match it {
        PatItem::Lit(l) => c == *l,
        PatItem::Class(a, b) => c == *a || c == *b,
        PatItem::AnyOne => true,
        PatItem::AnyStar => false,
    }
}

/// Whether the pattern items from `ki` on match some prefix of `s[si..]`.
pub fn match_from(items: &Vec<PatItem>, ki: usize, s: &Vec<char>, si: usize) -> (r: bool)
    requires
        ki <= items@.len(),
        si <= s@.len(),
    ensures
        r == match_at(items@.skip(ki as int), s@, si as int),
    decreases items@.len() - ki,
{
    proof {
        assert(items@.skip(ki as int).len() == items@.len() - ki);
    }
    if ki == items.len() {
        return true;
    }
    proof {
        assert(items@.skip(ki as int)[0] == items@[ki as int]);
        assert(items@.skip(ki as int).drop_first() =~= items@.skip(ki as int + 1));
    }
    let it = items[ki];
    let k2 = ki + 1;
    match it {
        PatItem::AnyStar => {
            let n = s.len();
            let mut j: usize = si;
            let mut found = match_from(items, k2, s, j);
            while !found && j < n
                invariant
                    si <= j <= n,
                    n == s@.len(),
                    k2 == ki + 1,
                    ki < items@.len(),
                    items@[ki as int] is AnyStar,
                    si <= s@.len(),
                    found == match_at(items@.skip(k2 as int), s@, j as int),
                    forall|k: int|
                        si <= k < j ==> !#[trigger] match_at(items@.skip(k2 as int), s@, k),
                decreases n - j,
            {
                j = j + 1;
                found = match_from(items, k2, s, j);
            }
            proof {
                let items_k = items@.skip(ki as int);
                assert(items_k.len() > 0);
                assert(items_k[0] == items@[ki as int]);
                assert(items_k.drop_first() =~= items@.skip(k2 as int));
                lemma_star_exists(items_k, s@, si as int);
                if found {
                    assert(si as int <= j as int <= s@.len() && match_at(
                        items_k.drop_first(),
                        s@,
                        j as int,
                    ));
                    assert(match_at(items_k, s@, si as int));
                } else {
                    assert(j == n);
                    assert(forall|k: int|
                        si <= k <= s@.len() ==> !#[trigger] match_at(
                            items_k.drop_first(),
                            s@,
                            k,
                        ));
                    assert(!match_at(items_k, s@, si as int));
                }
            }
            found
        },
        _ => {
            if si < s.len() {
                let c = s[si];
                if item_matches(&it, c) {
                    match_from(items, k2, s, si + 1)
                } else {
                    false
                }
            } else {
                false
            }
        },
    }
}

/// The leftmost match position of the pattern in `s`, if any.
pub fn first_match(items: &Vec<PatItem>, s: &Vec<char>) -> (r: Option<usize>)
    ensures
        match r {
            Some(m) => first_pos(items@, s@) == Some(m as int),
            None => first_pos(items@, s@) is None,
        },
{
    let n = s.len();
    let mut i: usize = 0;
    loop
        invariant
            i <= n,
            n == s@.len(),
            first_pos(items@, s@) == first_from(items@, s@, i as int),
        decreases n - i,
    {
        if match_from(items, 0, s, i) {
            proof {
                assert(items@.skip(0) =~= items@);
            }
            return Some(i);
        }
        proof {
            assert(items@.skip(0) =~= items@);
        }
        if i == n {
            proof {
                assert(first_from(items@, s@, i as int + 1) is None);
            }
            return None;
        }
        i = i + 1;
    }
}

} // verus!
