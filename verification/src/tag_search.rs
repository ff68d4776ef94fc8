//! A standalone tag type parsed from one database line.

use vstd::prelude::*;
use vstd::string::StrSliceExecFns;
use vstd::string::StringExecFns;

use crate::text::{find_char, find_from, lemma_find_from, str_eq, str_to_chars};

verus! {

/// A tag parsed from one `name<TAB>file<TAB>...` line.
///
/// The derived order compares the name first; the file field decides only
/// between tags of equal name.
#[derive(Debug, PartialEq, Eq, PartialOrd, Ord)]
pub struct Tag<'a> {
    pub name: &'a str,
    pub file: &'a str,
}

/// The name field of a line: everything before the first tab.
pub open spec fn parsed_name(s: Seq<char>) -> Seq<char> {
    s.take(find_from(s, '\t', 0))
}

/// The file field of a line: everything between the first and the second
/// tab.
pub open spec fn parsed_file(s: Seq<char>) -> Seq<char> {
    let t1 = find_from(s, '\t', 0);
    s.subrange(t1 + 1, find_from(s, '\t', t1 + 1))
}

impl<'a> Tag<'a> {
    /// Parse a tag from a line that holds at least two tab-separated
    /// fields.
    pub fn from_str(s: &'a str) -> (r: Tag<'a>)
        requires
            exists|k: int| 0 <= k < s@.len() && s@[k] == '\t',
        ensures
            r.name@ == parsed_name(s@),
            r.file@ == parsed_file(s@),
    {
        let sv = str_to_chars(s);
        let t1 = find_char(&sv, '\t', 0);
        proof {
            lemma_find_from(sv@, '\t', 0);
            let k = choose|k: int| 0 <= k < s@.len() && s@[k] == '\t';
            assert(!(find_from(sv@, '\t', 0) < sv@.len()) ==> sv@[k] != '\t');
        }
        let t2 = find_char(&sv, '\t', t1 + 1);
        proof {
            lemma_find_from(sv@, '\t', t1 as int + 1);
        }
        Tag { name: s.substring_char(0, t1), file: s.substring_char(t1 + 1, t2) }
    }

    /// A tag known only by name, with an empty file field.
    pub fn from_name(name: &'a str) -> (r: Tag<'a>)
        ensures
            r.name@ == name@,
            r.file@ == ""@,
    {
        Tag { name, file: "" }
    }

    /// The documentation URL of this tag: the file without its extension
    /// (with the top-level `index` file mapped to `vimindex`), then the
    /// name as the fragment.
    pub fn to_url(&self) -> (r: String)
        ensures
            r@ == crate::help::url_of(self.name@, self.file@),
    {
        let fv = str_to_chars(self.file);
        let dot = find_char(&fv, '.', 0);
        proof {
            lemma_find_from(fv@, '.', 0);
        }
        let fe = self.file.substring_char(0, dot);
        proof {
            assert(fe@ =~= crate::help::strip_ext(self.file@));
        }
        let fe2 = if str_eq(fe, "index") {
            "vimindex"
        } else {
            fe
        };
        let s = String::from_str("https://neovim.io/doc/user/");
        let s = s.concat(fe2);
        let s = s.concat(".html#");
        let s = s.concat(self.name);
        s
    }
}

} // verus!
