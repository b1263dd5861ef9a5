//! How things in the world are named, and how a player's words find them.
use vstd::prelude::*;

use crate::phrase::sviews;
use crate::text::{
    chars_eq_ignore_ascii_case, chars_of, eq_ignoring_ascii_case, lowercase, lowercase_chars,
};

verus! {

broadcast use vstd::string::group_string_axioms;

/// A player's word names a thing when it is the thing's name or short name,
/// ignoring ASCII case, or when its lower-case form is one of the thing's tags.
pub open spec fn names_match(
    name: Seq<char>,
    short_name: Seq<char>,
    tags: Seq<Seq<char>>,
    query: Seq<char>,
) -> bool {
    ||| eq_ignoring_ascii_case(name, query)
    ||| eq_ignoring_ascii_case(short_name, query)
    ||| tags.contains(lowercase(query))
}

/// How a thing is named and shown.
#[derive(Clone, Debug, PartialEq)]
pub struct Depiction {
    pub name: String,
    pub short_name: String,
    pub tags: Vec<String>,
}

impl Depiction {
    /// Whether the player's word names this thing (see `names_match`).
    pub open spec fn spec_matches(&self, query: Seq<char>) -> bool {
        names_match(self.name@, self.short_name@, sviews(self.tags@), query)
    }

    /// Whether the player's word names this thing.
    pub fn matches_query(&self, query: &str) -> (r: bool)
        ensures
            r == self.spec_matches(query@),
    {
        names_match_exec(&self.name, &self.short_name, &self.tags, query)
    }
}

/// Whether one of `tags` has exactly the characters of `word`.
pub fn tags_contain(tags: &Vec<String>, word: &Vec<char>) -> (r: bool)
    ensures
        r == sviews(tags@).contains(word@),
{
    let mut i: usize = 0;
    while i < tags.len()
        invariant
            i <= tags@.len(),
            forall|k: int| 0 <= k < i ==> #[trigger] tags@[k]@ != word@,
        decreases tags@.len() - i,
    {
        let t = chars_of(tags[i].as_str());
        if crate::text::chars_eq(t.as_slice(), word.as_slice()) {
            assert(sviews(tags@)[i as int] == word@);
            return true;
        }
        i = i + 1;
    }
    assert(!sviews(tags@).contains(word@)) by {
        if sviews(tags@).contains(word@) {
            let k = choose|k: int| 0 <= k < sviews(tags@).len() && sviews(tags@)[k] == word@;
            assert(tags@[k]@ == word@);
        }
    }
    false
}

/// Whether the query names a thing with these names and tags.
pub fn names_match_exec(name: &String, short_name: &String, tags: &Vec<String>, query: &str) -> (r:
    bool)
    ensures
        r == names_match(name@, short_name@, sviews(tags@), query@),
{
    let q = chars_of(query);
    let n = chars_of(name.as_str());
    if chars_eq_ignore_ascii_case(n.as_slice(), q.as_slice()) {
        return true;
    }
    let s = chars_of(short_name.as_str());
    if chars_eq_ignore_ascii_case(s.as_slice(), q.as_slice()) {
        return true;
    }
    let lowered = lowercase_chars(q.as_slice());
    tags_contain(tags, &lowered)
}

} // verus!
