//! Lists of names as players read them: "a stick, 2 rocks, and a plate".
use vstd::prelude::*;

use crate::text::{
    append_chars, append_str, chars_lt, chars_of, decimal, decimal_chars, lemma_lex_le_order,
    lemma_lex_lt_order, lex_le, lex_lt, string_of,
};

verus! {

broadcast use vstd::string::group_string_axioms;

// ---------------------------------------------------------------------------
// Names of what the outside crates compute.
// ---------------------------------------------------------------------------

/// What `inflector::string::pluralize::to_plural` returns for a word.
pub uninterp spec fn plural_of(word: Seq<char>) -> Seq<char>;

/// What `indefinite::indefinite` returns for a noun phrase.
pub uninterp spec fn indefinite_of(noun: Seq<char>) -> Seq<char>;

/// `inflector::string::pluralize::to_plural`: the plural of an English word,
/// by the crate's table of rules and exceptions.
#[verifier::external_body]
pub(crate) fn plural(word: &str) -> (r: String)
    ensures
        r@ == plural_of(word@),
{
    inflector::string::pluralize::to_plural(word)
}

/// `indefinite::indefinite`: the noun phrase behind its indefinite article.
/// The crate's source writes the result as the article (`a` or `an`, chosen
/// by the first word), a space, and the phrase itself.
#[verifier::external_body]
pub(crate) fn with_indefinite_article(noun: &str) -> (r: String)
    ensures
        r@ == indefinite_of(noun@),
        r@ == "a "@ + noun@ || r@ == "an "@ + noun@,
{
    indefinite::indefinite(noun)
}

// ---------------------------------------------------------------------------
// Sequences of character sequences.
// ---------------------------------------------------------------------------

/// The character sequences of a vector of character vectors.
pub open spec fn cviews(v: Seq<Vec<char>>) -> Seq<Seq<char>> {
    v.map_values(|x: Vec<char>| x@)
}

/// The character sequences of a vector of strings.
pub open spec fn sviews(v: Seq<String>) -> Seq<Seq<char>> {
    v.map_values(|x: String| x@)
}

/// The sequence is in non-decreasing lexicographic order.
pub open spec fn sorted_lex(s: Seq<Seq<char>>) -> bool {
    forall|i: int, j: int| 0 <= i < j < s.len() ==> lex_le(#[trigger] s[i], #[trigger] s[j])
}

/// The parts joined by `sep`.
pub open spec fn join(parts: Seq<Seq<char>>, sep: Seq<char>) -> Seq<char>
    decreases parts.len(),
{
    if parts.len() == 0 {
        seq![]
    } else if parts.len() == 1 {
        parts[0]
    } else {
        join(parts.drop_last(), sep) + sep + parts.last()
    }
}

/// An English enumeration: "x", "x and y", "x, y, and z".
pub open spec fn list_phrase(parts: Seq<Seq<char>>) -> Seq<char> {
    if parts.len() == 0 {
        seq![]
    } else if parts.len() == 1 {
        parts[0]
    } else if parts.len() == 2 {
        parts[0] + " and "@ + parts[1]
    } else {
        join(parts.drop_last(), ", "@) + ", and "@ + parts.last()
    }
}

/// How often `x` occurs in `s`.
pub open spec fn occurrences(s: Seq<Seq<char>>, x: Seq<char>) -> nat
    decreases s.len(),
{
    if s.len() == 0 {
        0
    } else {
        occurrences(s.drop_last(), x) + if s.last() == x {
            1nat
        } else {
            0nat
        }
    }
}

/// The elements of `s`, each once, in the order of their first occurrence.
pub open spec fn distinct(s: Seq<Seq<char>>) -> Seq<Seq<char>>
    decreases s.len(),
{
    if s.len() == 0 {
        s
    } else if distinct(s.drop_last()).contains(s.last()) {
        distinct(s.drop_last())
    } else {
        distinct(s.drop_last()).push(s.last())
    }
}

/// One name of a list with how often it occurs: "a stick" or "2 sticks".
pub open spec fn name_entry(name: Seq<char>, count: nat) -> Seq<char> {
    if count > 1 {
        decimal(count) + " "@ + plural_of(name)
    } else {
        indefinite_of(name)
    }
}

/// The entries of a list of names, in the order of first occurrence.
pub open spec fn name_entries(names: Seq<Seq<char>>) -> Seq<Seq<char>> {
    distinct(names).map_values(|n: Seq<char>| name_entry(n, occurrences(names, n)))
}

/// `l` is the list `items` put in lexicographic order.
pub open spec fn is_sorted_arrangement(l: Seq<Seq<char>>, items: Seq<Seq<char>>) -> bool {
    sorted_lex(l) && l.to_multiset() == items.to_multiset()
}

/// The phrase that lists `names`: each name once with its count, in
/// lexicographic order of the entries.
pub open spec fn names_phrase(names: Seq<Seq<char>>, phrase: Seq<char>) -> bool {
    exists|l: Seq<Seq<char>>| is_sorted_arrangement(l, name_entries(names)) && phrase == list_phrase(l)
}

// ---------------------------------------------------------------------------
// Lemmas.
// ---------------------------------------------------------------------------

/// Inserting into a sequence adds the element to its multiset.
pub proof fn lemma_insert_multiset(s: Seq<Seq<char>>, p: int, x: Seq<char>)
    requires
        0 <= p <= s.len(),
    ensures
        s.insert(p, x).to_multiset() == s.to_multiset().insert(x),
{
    broadcast use vstd::seq_lib::group_to_multiset_ensures;

    let a = s.take(p);
    let b = s.skip(p);
    assert(s == a + b);
    assert(s.insert(p, x) == a.push(x) + b);
    vstd::seq_lib::lemma_multiset_commutative(a, b);
    vstd::seq_lib::lemma_multiset_commutative(a.push(x), b);
}

/// Two sorted arrangements of the same items are the same sequence.
pub proof fn lemma_sorted_arrangement_unique(l1: Seq<Seq<char>>, l2: Seq<Seq<char>>)
    requires
        sorted_lex(l1),
        sorted_lex(l2),
        l1.to_multiset() == l2.to_multiset(),
    ensures
        l1 == l2,
    decreases l1.len(),
{
    broadcast use vstd::seq_lib::group_to_multiset_ensures;

    assert(l1.to_multiset().len() == l1.len());
    assert(l2.to_multiset().len() == l2.len());
    if l1.len() == 0 {
        assert(l2.len() == 0);
    } else {
        assert(l2.len() == l1.len());
        let a = l1[0];
        let b = l2[0];
        assert(l1.to_multiset().count(b) > 0) by {
            assert(l2.contains(b));
        }
        assert(l1.contains(b));
        assert(l2.contains(a)) by {
            assert(l2.to_multiset().count(a) > 0) by {
                assert(l1.contains(a));
            }
        }
        let i = choose|i: int| 0 <= i < l1.len() && l1[i] == b;
        let j = choose|j: int| 0 <= j < l2.len() && l2[j] == a;
        if i > 0 {
            assert(lex_le(l1[0], l1[i]));
        }
        if j > 0 {
            assert(lex_le(l2[0], l2[j]));
        }
        lemma_lex_le_order(a, b, a);
        assert(a == b);
        assert(l1.remove(0) == l1.drop_first());
        assert(l2.remove(0) == l2.drop_first());
        assert(l1.drop_first().to_multiset() == l2.drop_first().to_multiset());
        assert(sorted_lex(l1.drop_first())) by {
            assert forall|x: int, y: int| 0 <= x < y < l1.drop_first().len() implies lex_le(
                #[trigger] l1.drop_first()[x],
                #[trigger] l1.drop_first()[y],
            ) by {
                assert(lex_le(l1[x + 1], l1[y + 1]));
            }
        }
        assert(sorted_lex(l2.drop_first())) by {
            assert forall|x: int, y: int| 0 <= x < y < l2.drop_first().len() implies lex_le(
                #[trigger] l2.drop_first()[x],
                #[trigger] l2.drop_first()[y],
            ) by {
                assert(lex_le(l2[x + 1], l2[y + 1]));
            }
        }
        lemma_sorted_arrangement_unique(l1.drop_first(), l2.drop_first());
        assert(l1 == seq![a] + l1.drop_first());
        assert(l2 == seq![b] + l2.drop_first());
    }
}

// ---------------------------------------------------------------------------
// Executable functions.
// ---------------------------------------------------------------------------

/// Sorts character vectors into lexicographic order.
pub fn sort_lex(v: Vec<Vec<char>>) -> (r: Vec<Vec<char>>)
    ensures
        is_sorted_arrangement(cviews(r@), cviews(v@)),
{
    broadcast use vstd::seq_lib::group_to_multiset_ensures, vstd::multiset::group_multiset_axioms;

    let ghost initial = cviews(v@);
    let mut rest = v;
    let mut out: Vec<Vec<char>> = Vec::new();
    while rest.len() > 0
        invariant
            sorted_lex(cviews(out@)),
            cviews(out@).to_multiset().add(cviews(rest@).to_multiset()) == initial.to_multiset(),
        decreases rest@.len(),
    {
        let ghost before = rest@;
        let ghost out_before = cviews(out@);
        let x = rest.pop().unwrap();
        assert(cviews(before) == cviews(rest@).push(x@));
        proof {
            cviews(rest@).to_multiset_ensures();
        }
        assert(cviews(before).to_multiset() == cviews(rest@).to_multiset().insert(x@));
        let mut p: usize = 0;
        while p < out.len() && !chars_lt(x.as_slice(), out[p].as_slice())
            invariant
                p <= out@.len(),
                forall|k: int| 0 <= k < p ==> lex_le(#[trigger] cviews(out@)[k], x@),
            decreases out@.len() - p,
        {
            proof {
                lemma_lex_lt_order(x@, out@[p as int]@, x@);
                lemma_lex_lt_order(out@[p as int]@, x@, x@);
            }
            p = p + 1;
        }
        let ghost old_out = cviews(out@);
        proof {
            if p < out@.len() {
                assert(lex_lt(x@, old_out[p as int]));
                assert forall|k: int| p <= k < old_out.len() implies lex_lt(x@, #[trigger] old_out[k]) by {
                    if k > p {
                        assert(lex_le(old_out[p as int], old_out[k]));
                        lemma_lex_lt_order(x@, old_out[p as int], old_out[k]);
                    }
                }
            }
        }
        out.insert(p, x);
        proof {
            let new_out = cviews(out@);
            assert(new_out == old_out.insert(p as int, x@));
            lemma_insert_multiset(old_out, p as int, x@);
            assert(new_out.to_multiset().add(cviews(rest@).to_multiset()) =~= out_before.to_multiset().add(
                cviews(before).to_multiset(),
            ));
            assert forall|i: int, j: int| 0 <= i < j < new_out.len() implies lex_le(
                #[trigger] new_out[i],
                #[trigger] new_out[j],
            ) by {
                if j < p {
                    assert(lex_le(old_out[i], old_out[j]));
                } else if j == p {
                    assert(lex_le(old_out[i], x@));
                } else if i < p {
                    assert(lex_le(old_out[i], old_out[j - 1]));
                } else if i == p {
                    assert(lex_lt(x@, old_out[j - 1]));
                } else {
                    assert(lex_le(old_out[i - 1], old_out[j - 1]));
                }
            }
        }
    }
    proof {
        cviews(rest@).to_multiset_ensures();
        vstd::multiset::lemma_multiset_empty_len(cviews(rest@).to_multiset());
    }
    assert(cviews(out@).to_multiset().add(cviews(rest@).to_multiset()) =~= cviews(out@).to_multiset());
    out
}

/// Joins character vectors with `sep`.
pub fn join_chars(parts: &[Vec<char>], sep: &str) -> (r: Vec<char>)
    ensures
        r@ == join(cviews(parts@), sep@),
{
    let mut r: Vec<char> = Vec::new();
    let mut i: usize = 0;
    while i < parts.len()
        invariant
            i <= parts@.len(),
            r@ == join(cviews(parts@).take(i as int), sep@),
        decreases parts@.len() - i,
    {
        let ghost pre = cviews(parts@).take(i as int);
        let ghost post = cviews(parts@).take(i + 1);
        assert(post.drop_last() == pre);
        assert(post.last() == parts@[i as int]@);
        if i > 0 {
            append_str(&mut r, sep);
        }
        append_chars(&mut r, parts[i].as_slice());
        i = i + 1;
    }
    assert(cviews(parts@).take(parts@.len() as int) == cviews(parts@));
    r
}

/// The English enumeration of the parts.
pub fn list_phrase_chars(parts: &Vec<Vec<char>>) -> (r: Vec<char>)
    ensures
        r@ == list_phrase(cviews(parts@)),
{
    let n = parts.len();
    if n == 0 {
        Vec::new()
    } else if n == 1 {
        let mut r = Vec::new();
        append_chars(&mut r, parts[0].as_slice());
        assert(r@ == parts@[0]@);
        r
    } else if n == 2 {
        let mut r = Vec::new();
        append_chars(&mut r, parts[0].as_slice());
        append_str(&mut r, " and ");
        append_chars(&mut r, parts[1].as_slice());
        assert(r@ == parts@[0]@ + " and "@ + parts@[1]@);
        r
    } else {
        let head = parts.as_slice().split_at(n - 1).0;
        assert(head@ == parts@.take(n - 1));
        assert(cviews(head@) == cviews(parts@).drop_last());
        let mut r = join_chars(head, ", ");
        append_str(&mut r, ", and ");
        append_chars(&mut r, parts[n - 1].as_slice());
        r
    }
}

/// `x` occurs in `s` exactly when it is among the distinct elements of `s`;
/// no element occurs more often than `s` is long.
pub proof fn lemma_distinct_occurrences(s: Seq<Seq<char>>, x: Seq<char>)
    ensures
        distinct(s).contains(x) <==> occurrences(s, x) > 0,
        occurrences(s, x) <= s.len(),
    decreases s.len(),
{
    if s.len() > 0 {
        lemma_distinct_occurrences(s.drop_last(), x);
        let d = distinct(s.drop_last());
        if d.contains(s.last()) {
            if s.last() == x {
                lemma_distinct_occurrences(s.drop_last(), s.last());
            }
        } else {
            if d.push(s.last()).contains(x) && x != s.last() {
                let k = choose|k: int| 0 <= k < d.push(s.last()).len() && d.push(s.last())[k] == x;
                assert(d[k] == x);
            }
            if d.contains(x) {
                let k = choose|k: int| 0 <= k < d.len() && d[k] == x;
                assert(d.push(s.last())[k] == x);
            }
            assert(d.push(s.last())[d.len() as int] == s.last());
        }
    }
}

/// No name occurs more often than a count of the list can hold (65535).
pub open spec fn name_counts_fit(names: Seq<Seq<char>>) -> bool {
    forall|x: Seq<char>| #[trigger] occurrences(names, x) <= 65535
}

/// A prefix holds a name no more often than the whole.
pub proof fn lemma_occurrences_prefix(s: Seq<Seq<char>>, n: int, x: Seq<char>)
    requires
        0 <= n <= s.len(),
    ensures
        occurrences(s.take(n), x) <= occurrences(s, x),
    decreases s.len(),
{
    if n < s.len() {
        lemma_occurrences_prefix(s.drop_last(), n, x);
        assert(s.drop_last().take(n) == s.take(n));
    } else {
        assert(s.take(n) == s);
    }
}

/// How often a name occurs is its count in the multiset of the names.
pub proof fn lemma_occurrences_count(s: Seq<Seq<char>>, x: Seq<char>)
    ensures
        occurrences(s, x) == s.to_multiset().count(x),
    decreases s.len(),
{
    broadcast use vstd::seq_lib::group_to_multiset_ensures, vstd::multiset::group_multiset_axioms;

    if s.len() == 0 {
        assert(s.to_multiset() =~= vstd::multiset::Multiset::empty());
    } else {
        lemma_occurrences_count(s.drop_last(), x);
        assert(s.drop_last().push(s.last()) == s);
    }
}

/// The distinct names hold no name twice.
pub proof fn lemma_distinct_no_duplicates(s: Seq<Seq<char>>)
    ensures
        distinct(s).no_duplicates(),
    decreases s.len(),
{
    if s.len() > 0 {
        lemma_distinct_no_duplicates(s.drop_last());
        let d = distinct(s.drop_last());
        if !d.contains(s.last()) {
            assert forall|i: int, j: int|
                0 <= i < d.push(s.last()).len() && 0 <= j < d.push(s.last()).len() && i != j
                    implies d.push(s.last())[i] != d.push(s.last())[j] by {
                if i == d.len() {
                    assert(d[j] != s.last());
                } else if j == d.len() {
                    assert(d[i] != s.last());
                }
            }
        }
    }
}

/// A sequence without duplicates holds each of its elements once.
pub proof fn lemma_no_duplicates_count(s: Seq<Seq<char>>, x: Seq<char>)
    requires
        s.no_duplicates(),
    ensures
        s.to_multiset().count(x) == if s.contains(x) {
            1nat
        } else {
            0nat
        },
{
    broadcast use vstd::seq_lib::group_to_multiset_ensures;

    if s.contains(x) {
        s.lemma_multiset_has_no_duplicates();
    }
}

/// Applying a function to each element keeps equal multisets equal.
pub proof fn lemma_map_multiset(
    s1: Seq<Seq<char>>,
    s2: Seq<Seq<char>>,
    f: spec_fn(Seq<char>) -> Seq<char>,
)
    requires
        s1.to_multiset() == s2.to_multiset(),
    ensures
        s1.map_values(f).to_multiset() == s2.map_values(f).to_multiset(),
    decreases s1.len(),
{
    broadcast use vstd::seq_lib::group_to_multiset_ensures, vstd::multiset::group_multiset_axioms;

    assert(s1.to_multiset().len() == s1.len());
    assert(s2.to_multiset().len() == s2.len());
    if s1.len() == 0 {
        assert(s2.len() == 0);
        assert(s1.map_values(f) =~= s2.map_values(f));
    } else {
        let x = s1.last();
        assert(s1.to_multiset().count(x) > 0) by {
            assert(s1.contains(x));
        }
        assert(s2.contains(x));
        let k = choose|k: int| 0 <= k < s2.len() && s2[k] == x;
        let t1 = s1.drop_last();
        let t2 = s2.remove(k);
        assert(s1 == t1.push(x));
        assert(t1.to_multiset() == s1.to_multiset().remove(x)) by {
            assert(s1.remove(s1.len() - 1) == t1);
        }
        assert(t2.to_multiset() == s2.to_multiset().remove(x));
        lemma_map_multiset(t1, t2, f);
        assert(s1.map_values(f) =~= t1.map_values(f).push(f(x)));
        assert(s2.map_values(f) =~= t2.map_values(f).insert(k, f(x)));
    }
}

/// The phrase that lists names does not depend on their order: lists of the
/// same names, in any order, read the same.
pub proof fn lemma_names_phrase_ignores_order(
    a: Seq<Seq<char>>,
    b: Seq<Seq<char>>,
    p: Seq<char>,
    q: Seq<char>,
)
    requires
        a.to_multiset() == b.to_multiset(),
        names_phrase(a, p),
        names_phrase(b, q),
    ensures
        p == q,
{
    broadcast use vstd::seq_lib::group_to_multiset_ensures;

    assert forall|n: Seq<char>| occurrences(a, n) == occurrences(b, n) by {
        lemma_occurrences_count(a, n);
        lemma_occurrences_count(b, n);
    }
    let da = distinct(a);
    let db = distinct(b);
    lemma_distinct_no_duplicates(a);
    lemma_distinct_no_duplicates(b);
    assert(da.to_multiset() =~= db.to_multiset()) by {
        assert forall|n: Seq<char>| da.to_multiset().count(n) == db.to_multiset().count(n) by {
            lemma_distinct_occurrences(a, n);
            lemma_distinct_occurrences(b, n);
            lemma_no_duplicates_count(da, n);
            lemma_no_duplicates_count(db, n);
        }
    }
    let fa = |n: Seq<char>| name_entry(n, occurrences(a, n));
    let fb = |n: Seq<char>| name_entry(n, occurrences(b, n));
    assert(fa =~= fb);
    lemma_map_multiset(da, db, fa);
    assert(name_entries(a) == da.map_values(fa));
    assert(name_entries(b) == db.map_values(fa));
    let l1 = choose|l: Seq<Seq<char>>| is_sorted_arrangement(l, name_entries(a)) && p == list_phrase(l);
    let l2 = choose|l: Seq<Seq<char>>| is_sorted_arrangement(l, name_entries(b)) && q == list_phrase(l);
    lemma_sorted_arrangement_unique(l1, l2);
}

/// The position of the first vector in `seen` with the characters of `x`.
fn find_chars(seen: &Vec<Vec<char>>, x: &Vec<char>) -> (r: Option<usize>)
    ensures
        match r {
            Some(j) => j < seen@.len() && seen@[j as int]@ == x@,
            None => forall|k: int| 0 <= k < seen@.len() ==> #[trigger] seen@[k]@ != x@,
        },
{
    let mut j: usize = 0;
    while j < seen.len()
        invariant
            j <= seen@.len(),
            forall|k: int| 0 <= k < j ==> #[trigger] seen@[k]@ != x@,
        decreases seen@.len() - j,
    {
        if crate::text::chars_eq(seen[j].as_slice(), x.as_slice()) {
            return Some(j);
        }
        j = j + 1;
    }
    None
}

/// Lists names the way the game tells them: each name once, with "a"/"an"
/// when it occurs once and its count and plural otherwise, in lexicographic
/// order of these entries, joined as an English enumeration. The text does
/// not depend on the order of the names: `lemma_names_phrase_ignores_order`
/// shows that the phrases of any two arrangements of the same names are
/// equal.
pub fn item_name_list(item_names: &[String]) -> (r: String)
    requires
        name_counts_fit(sviews(item_names@)),
    ensures
        names_phrase(sviews(item_names@), r@),
{
    let ghost names = sviews(item_names@);
    let mut seen: Vec<Vec<char>> = Vec::new();
    let mut counts: Vec<u64> = Vec::new();
    let mut i: usize = 0;
    while i < item_names.len()
        invariant
            i <= item_names@.len(),
            names == sviews(item_names@),
            name_counts_fit(names),
            cviews(seen@) == distinct(names.take(i as int)),
            counts@.len() == seen@.len(),
            forall|j: int|
                0 <= j < counts@.len() ==> #[trigger] counts@[j] == occurrences(
                    names.take(i as int),
                    seen@[j]@,
                ),
            forall|j: int, k: int|
                0 <= j < k < seen@.len() ==> #[trigger] seen@[j]@ != #[trigger] seen@[k]@,
        decreases item_names@.len() - i,
    {
        let name = chars_of(item_names[i].as_str());
        let ghost pre = names.take(i as int);
        let ghost post = names.take(i + 1);
        assert(post.drop_last() == pre);
        assert(post.last() == name@);
        let ghost old_seen = seen@;
        let ghost old_counts = counts@;
        match find_chars(&seen, &name) {
            Some(j) => {
                proof {
                    lemma_distinct_occurrences(pre, name@);
                    assert(cviews(old_seen)[j as int] == name@);
                    assert(distinct(pre).contains(name@));
                }
                proof {
                    lemma_occurrences_prefix(names, i + 1, name@);
                    assert(occurrences(names, name@) <= 65535);
                    assert(counts@[j as int] == occurrences(pre, old_seen[j as int]@));
                }
                let c = counts[j];
                counts.set(j, c + 1);
                proof {
                    assert forall|k: int| 0 <= k < counts@.len() implies #[trigger] counts@[k]
                        == occurrences(post, seen@[k]@) by {
                        if k != j {
                            if k < j {
                                assert(old_seen[k]@ != old_seen[j as int]@);
                            } else {
                                assert(old_seen[j as int]@ != old_seen[k]@);
                            }
                        }
                    }
                }
            },
            None => {
                proof {
                    lemma_distinct_occurrences(pre, name@);
                    assert(!distinct(pre).contains(name@)) by {
                        if distinct(pre).contains(name@) {
                            let k = choose|k: int| 0 <= k < distinct(pre).len() && distinct(pre)[k] == name@;
                            assert(cviews(old_seen)[k] == old_seen[k]@);
                        }
                    }
                }
                seen.push(name);
                counts.push(1);
                proof {
                    assert(cviews(seen@) == cviews(old_seen).push(name@));
                    assert forall|k: int| 0 <= k < counts@.len() implies #[trigger] counts@[k]
                        == occurrences(post, seen@[k]@) by {
                        if k < old_seen.len() {
                            assert(old_seen[k]@ != name@);
                        }
                    }
                }
            },
        }
        i = i + 1;
    }
    assert(names.take(item_names@.len() as int) == names);
    let mut entries: Vec<Vec<char>> = Vec::new();
    let mut j: usize = 0;
    while j < seen.len()
        invariant
            j <= seen@.len() == counts@.len(),
            cviews(seen@) == distinct(names),
            forall|k: int|
                0 <= k < counts@.len() ==> #[trigger] counts@[k] == occurrences(names, seen@[k]@),
            cviews(entries@) == name_entries(names).take(j as int),
        decreases seen@.len() - j,
    {
        let word = string_of(seen[j].as_slice());
        let entry: Vec<char>;
        if counts[j] > 1 {
            let mut e = decimal_chars(counts[j]);
            append_str(&mut e, " ");
            let p = plural(word.as_str());
            append_str(&mut e, p.as_str());
            entry = e;
        } else {
            let a = with_indefinite_article(word.as_str());
            entry = chars_of(a.as_str());
        }
        assert(entry@ == name_entry(seen@[j as int]@, occurrences(names, seen@[j as int]@)));
        assert(name_entries(names)[j as int] == entry@) by {
            assert(distinct(names)[j as int] == seen@[j as int]@);
        }
        let ghost old_entries = cviews(entries@);
        entries.push(entry);
        assert(cviews(entries@) =~= old_entries.push(entry@));
        assert(name_entries(names).take(j + 1) =~= name_entries(names).take(j as int).push(
            name_entries(names)[j as int],
        ));
        j = j + 1;
    }
    assert(name_entries(names).take(seen@.len() as int) == name_entries(names));
    let sorted = sort_lex(entries);
    let phrase = list_phrase_chars(&sorted);
    assert(is_sorted_arrangement(cviews(sorted@), name_entries(names)));
    string_of(phrase.as_slice())
}

} // verus!
