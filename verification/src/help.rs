//! The resolution facade: derive patterns from the query, scan the tag
//! database line by line, score every match, and return the candidate with
//! the minimum score (on ties, the first in scan order).

use vstd::prelude::*;
use vstd::string::StrSliceExecFns;
use vstd::string::StringExecFns;

use crate::pattern::{
    generate_search_patterns, pattern_hit, pattern_hit_exec, patterns_of, Patterns, PatternsModel,
};
use crate::score::{compute_score, match_score};
use crate::text::{copy_range, find_char, find_from, lemma_find_from, str_eq, str_to_chars};

verus! {

/// A resolved tag: its name and the documentation file that defines it.
/// Both fields borrow from the tag database text.
#[derive(Debug, PartialEq, Eq, PartialOrd)]
pub struct Tag<'a> {
    pub name: &'a str,
    pub file: &'a str,
}

/// One scored candidate collected while scanning the database.
#[derive(Debug)]
pub struct Match<'a> {
    pub(crate) tag: Tag<'a>,
    pub(crate) score: u128,
}

/// The mathematical content of one candidate.
pub struct Candidate {
    pub name: Seq<char>,
    pub file: Seq<char>,
    pub score: nat,
}

pub(crate) open spec fn cand_of(m: Match) -> Candidate {
    Candidate { name: m.tag.name@, file: m.tag.file@, score: m.score as nat }
}

pub(crate) open spec fn cands_of(ms: Seq<Match>) -> Seq<Candidate> {
    Seq::new(ms.len(), |k: int| cand_of(ms[k]))
}

/// The name and file fields of a database line: the text before the first
/// tab, and the text between the first and the second tab.  A line with no
/// tab is malformed and yields nothing.
pub open spec fn line_fields(line: Seq<char>) -> Option<(Seq<char>, Seq<char>)> {
    let t1 = find_from(line, '\t', 0);
    if t1 == line.len() {
        None
    } else {
        Some((line.take(t1), line.subrange(t1 + 1, find_from(line, '\t', t1 + 1))))
    }
}

/// Where the content of the line starting at `i` ends, `j` being the
/// position of its terminating newline (or the end of the text): one
/// carriage return directly before a newline belongs to the line ending,
/// not to the line.
pub open spec fn line_end(t: Seq<char>, i: int, j: int) -> int {
    if j < t.len() && j > i && t[j - 1] == '\r' {
        j - 1
    } else {
        j
    }
}

/// The candidate one line yields: its fields, scored at the priority and
/// position of the first pattern that matches the name.  Malformed and
/// unmatched lines yield none.
pub open spec fn line_candidate(p: PatternsModel, line: Seq<char>) -> Option<Candidate> {
    match line_fields(line) {
        None => None,
        Some(fields) => match pattern_hit(p, fields.0) {
            None => None,
            Some(hit) => Some(
                Candidate {
                    name: fields.0,
                    file: fields.1,
                    score: match_score(hit.0, fields.0, hit.1),
                },
            ),
        },
    }
}

/// Every candidate from line start `i` to the end of the scan.  A line
/// ending is a newline or a carriage return followed by a newline.  The
/// scan stops at the first empty line, or at the end of the text.
pub open spec fn scan_from(p: PatternsModel, t: Seq<char>, i: int) -> Seq<Candidate>
    decreases t.len() - i,
{
    if !(0 <= i <= t.len()) {
        seq![]
    } else {
        let j = find_from(t, '\n', i);
        let e = line_end(t, i, j);
        if e <= i {
            seq![]
        } else {
            let rest = if j >= t.len() {
                seq![]
            } else {
                scan_from(p, t, j + 1)
            };
            match line_candidate(p, t.subrange(i, e)) {
                Some(c) => seq![c] + rest,
                None => rest,
            }
        }
    }
}

/// The tag name of every well-formed line in the scanned stretch of the
/// database, in line order: what the scan looks at, whether or not a
/// pattern matches it.
pub open spec fn names_from(t: Seq<char>, i: int) -> Seq<Seq<char>>
    decreases t.len() - i,
{
    if !(0 <= i <= t.len()) {
        seq![]
    } else {
        let j = find_from(t, '\n', i);
        let e = line_end(t, i, j);
        if e <= i {
            seq![]
        } else {
            let rest = if j >= t.len() {
                seq![]
            } else {
                names_from(t, j + 1)
            };
            match line_fields(t.subrange(i, e)) {
                Some(f) => seq![f.0] + rest,
                None => rest,
            }
        }
    }
}

/// Of two candidates, the one with the smaller score; the earlier one wins
/// a tie.
pub open spec fn better(a: Candidate, b: Candidate) -> Candidate {
    if b.score < a.score {
        b
    } else {
        a
    }
}

pub open spec fn best_from(cs: Seq<Candidate>, i: int, acc: Candidate) -> Candidate
    decreases cs.len() - i,
{
    if !(0 <= i < cs.len()) {
        acc
    } else {
        best_from(cs, i + 1, better(acc, cs[i]))
    }
}

/// The first candidate with the minimum score, if there is any candidate.
pub open spec fn best(cs: Seq<Candidate>) -> Option<Candidate> {
    if cs.len() == 0 {
        None
    } else {
        Some(best_from(cs, 1, cs[0]))
    }
}

pub proof fn lemma_best_from(cs: Seq<Candidate>, i: int, acc: Candidate)
    requires
        0 <= i <= cs.len(),
    ensures
        ({
            let b = best_from(cs, i, acc);
            &&& b == acc || exists|k: int| i <= k < cs.len() && b == cs[k]
            &&& b.score <= acc.score
            &&& forall|k: int| i <= k < cs.len() ==> b.score <= cs[k].score
        }),
    decreases cs.len() - i,
{
    if i < cs.len() {
        lemma_best_from(cs, i + 1, better(acc, cs[i]));
    }
}

/// The selected candidate is one of the scanned candidates, and no
/// candidate scores below it.
pub proof fn lemma_best(cs: Seq<Candidate>)
    requires
        cs.len() > 0,
    ensures
        best(cs) matches Some(b) && (exists|k: int| 0 <= k < cs.len() && b == cs[k]),
        best(cs) matches Some(b) && (forall|k: int| 0 <= k < cs.len() ==> b.score <= cs[k].score),
{
    lemma_best_from(cs, 1, cs[0]);
}

/// What resolving `q` against the database `tagfile` yields: the first
/// minimum-score candidate of the scan, as a pure function of the two
/// inputs.
pub open spec fn help_spec(q: Seq<char>, tagfile: Seq<char>) -> Option<Candidate> {
    best(scan_from(patterns_of(q), tagfile, 0))
}

/// Scan the database and collect every line whose tag name one of the
/// patterns matches, each with its score, in line order.
pub(crate) fn find_in_tagfile_and_score<'a>(tagfile: &'a str, patterns: Patterns) -> (ms: Vec<
    Match<'a>,
>)
    ensures
        cands_of(ms@) == scan_from(patterns@, tagfile@, 0),
{
    let tf = str_to_chars(tagfile);
    let n = tf.len();
    let mut ms: Vec<Match> = Vec::new();
    let mut i: usize = 0;
    loop
        invariant
            i <= n,
            n == tf@.len(),
            tf@ == tagfile@,
            cands_of(ms@) + scan_from(patterns@, tf@, i as int) =~= scan_from(
                patterns@,
                tf@,
                0,
            ),
        ensures
            cands_of(ms@) =~= scan_from(patterns@, tf@, 0),
        decreases n - i,
    {
        let ghost cs0 = cands_of(ms@);
        let j = find_char(&tf, '\n', i);
        proof {
            lemma_find_from(tf@, '\n', i as int);
        }
        let e = if j < n && j > i && tf[j - 1] == '\r' {
            j - 1
        } else {
            j
        };
        proof {
            assert(e as int == line_end(tf@, i as int, j as int));
        }
        if e == i {
            proof {
                assert(scan_from(patterns@, tf@, i as int) =~= Seq::<Candidate>::empty());
            }
            break ;
        }
        let line = copy_range(&tf, i, e);
        let t1 = find_char(&line, '\t', 0);
        proof {
            lemma_find_from(line@, '\t', 0);
        }
        if t1 < line.len() {
            let t2 = find_char(&line, '\t', t1 + 1);
            proof {
                lemma_find_from(line@, '\t', t1 as int + 1);
            }
            let name = copy_range(&line, 0, t1);
            proof {
                assert(name@ =~= line@.take(t1 as int));
            }
            if let Some(hit) = pattern_hit_exec(&patterns, &name) {
                let score = compute_score(hit.0, &name, hit.1);
                let tag = Tag {
                    name: tagfile.substring_char(i, i + t1),
                    file: tagfile.substring_char(i + t1 + 1, i + t2),
                };
                proof {
                    assert(tag.name@ =~= line@.take(t1 as int));
                    assert(tag.file@ =~= line@.subrange(
                        t1 as int + 1,
                        find_from(line@, '\t', t1 as int + 1),
                    ));
                }
                let m = Match { tag, score };
                proof {
                    assert(line_candidate(patterns@, line@) == Some(cand_of(m)));
                }
                ms.push(m);
                proof {
                    assert(cands_of(ms@) =~= cs0 + seq![cand_of(m)]);
                }
            } else {
                proof {
                    assert(line_candidate(patterns@, line@) is None);
                }
            }
        } else {
            proof {
                assert(line_fields(line@) is None);
                assert(line_candidate(patterns@, line@) is None);
            }
        }
        if j == n {
            i = n;
        } else {
            i = j + 1;
        }
    }
    proof {
        assert(cands_of(ms@) =~= scan_from(patterns@, tagfile@, 0));
    }
    ms
}

/// Resolve a query against the tag database: the tag of the first
/// minimum-score candidate, or nothing when no line matches.
///
/// The result is pinned to `help_spec`, a function of the two arguments
/// alone, so a second call with the same inputs yields the same answer:
/// no state survives a call.
pub fn help<'a>(thing: &str, tagfile: &'a str) -> (r: Option<Tag<'a>>)
    requires
        thing@.len() > 0,
    ensures
        match r {
            None => help_spec(thing@, tagfile@) is None,
            Some(t) => help_spec(thing@, tagfile@) matches Some(c) && t.name@ == c.name
                && t.file@ == c.file,
        },
{
    let patterns = generate_search_patterns(thing).unwrap();
    let ms = find_in_tagfile_and_score(tagfile, patterns);
    let ghost cs = cands_of(ms@);
    if ms.len() == 0 {
        proof {
            assert(cs.len() == 0);
        }
        return None;
    }
    let mut bi: usize = 0;
    let mut k: usize = 1;
    while k < ms.len()
        invariant
            1 <= k <= ms@.len(),
            bi < k,
            cs == cands_of(ms@),
            cs.len() == ms@.len(),
            best_from(cs, 1, cs[0]) == best_from(cs, k as int, cand_of(ms@[bi as int])),
        decreases ms@.len() - k,
    {
        proof {
            assert(cs[k as int] == cand_of(ms@[k as int]));
        }
        if ms[k].score < ms[bi].score {
            bi = k;
        }
        k = k + 1;
    }
    proof {
        assert(best_from(cs, k as int, cand_of(ms@[bi as int])) == cand_of(ms@[bi as int]));
    }
    let m = &ms[bi];
    Some(Tag { name: m.tag.name, file: m.tag.file })
}

/// Everything of `file` before its first dot; the whole name when it has
/// no dot.
pub open spec fn strip_ext(file: Seq<char>) -> Seq<char> {
    file.take(find_from(file, '.', 0))
}

/// The folder name used in the documentation URL: the file without its
/// extension, except that the top-level `index` file maps to `vimindex`.
pub open spec fn url_file(file: Seq<char>) -> Seq<char> {
    let fe = strip_ext(file);
    if fe == "index"@ {
        "vimindex"@
    } else {
        fe
    }
}

/// The canonical documentation URL of a tag.
pub open spec fn url_of(name: Seq<char>, file: Seq<char>) -> Seq<char> {
    "https://neovim.io/doc/user/"@ + url_file(file) + ".html#"@ + name
}

impl<'a> Tag<'a> {
    /// The documentation URL of this tag.
    pub fn to_url(&self) -> (r: String)
        ensures
            r@ == url_of(self.name@, self.file@),
    {
        let fv = str_to_chars(self.file);
        let dot = find_char(&fv, '.', 0);
        proof {
            lemma_find_from(fv@, '.', 0);
        }
        let fe = self.file.substring_char(0, dot);
        proof {
            assert(fe@ =~= strip_ext(self.file@));
        }
        let fe2 = if str_eq(fe, "index") {
            "vimindex"
        } else {
            fe
        };
        let s = String::from_str("https://neovim.io/doc/user/");
        let s = s.concat(fe2);
        let s = s.concat(".html#");
        let s = s.concat(self.name);
        s
    }
}

} // verus!
