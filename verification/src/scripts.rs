//! Which scripts run when a skill or condition reaches a phase.
use vstd::prelude::*;

use crate::phrase::sviews;
use crate::search::{first_satisfying, lemma_first_satisfying, lemma_first_satisfying_at};

verus! {

broadcast use vstd::string::group_string_axioms;

/// A loaded script, by the name it was loaded under.
pub struct ScriptEntry {
    pub name: String,
    pub source: String,
}

/// The loaded script with this name.
pub open spec fn script_named(library: Seq<ScriptEntry>, name: Seq<char>) -> Option<int> {
    first_satisfying(library, |e: ScriptEntry| e.name@ == name)
}

/// The scripts that run, by their positions in the library, for the keys in
/// order: each key's script until the first key that names no script, where
/// the run stops.
pub open spec fn scripts_run(library: Seq<ScriptEntry>, keys: Seq<Seq<char>>) -> Seq<int>
    decreases keys.len(),
{
    if keys.len() == 0 {
        seq![]
    } else {
        match script_named(library, keys[0]) {
            None => seq![],
            Some(i) => seq![i] + scripts_run(library, keys.drop_first()),
        }
    }
}

/// Whether every key names a script.
pub open spec fn all_found(library: Seq<ScriptEntry>, keys: Seq<Seq<char>>) -> bool {
    forall|k: int| 0 <= k < keys.len() ==> #[trigger] script_named(library, keys[k]) is Some
}

/// Finds the loaded script with this name.
pub fn find_script(library: &[ScriptEntry], name: &String) -> (r: Option<usize>)
    ensures
        match r {
            Some(i) => script_named(library@, name@) == Some(i as int) && i < library@.len(),
            None => script_named(library@, name@) is None,
        },
{
    let ghost p = |e: ScriptEntry| e.name@ == name@;
    let mut i: usize = 0;
    while i < library.len()
        invariant
            i <= library@.len(),
            p == (|e: ScriptEntry| e.name@ == name@),
            forall|j: int| #![trigger library@[j]] 0 <= j < i ==> !p(library@[j]),
        decreases library@.len() - i,
    {
        if library[i].name == *name {
            proof {
                lemma_first_satisfying_at(library@, p, i as int);
            }
            return Some(i);
        }
        i = i + 1;
    }
    proof {
        lemma_first_satisfying(library@, p);
    }
    None
}

/// The scripts to run for a skill's or condition's keys, in order, and
/// whether all were found: a key without a script ends the run.
pub fn scripts_to_run(library: &[ScriptEntry], keys: &Vec<String>) -> (r: (Vec<usize>, bool))
    ensures
        r.0@.map_values(|i: usize| i as int) == scripts_run(library@, sviews(keys@)),
        r.1 == all_found(library@, sviews(keys@)),
{
    let ghost ks = sviews(keys@);
    let mut found: Vec<usize> = Vec::new();
    let mut i: usize = 0;
    assert(ks.skip(0) == ks);
    assert(found@.map_values(|j: usize| j as int) + scripts_run(library@, ks) =~= scripts_run(
        library@,
        ks,
    ));
    while i < keys.len()
        invariant
            i <= keys@.len(),
            ks == sviews(keys@),
            found@.map_values(|j: usize| j as int) + scripts_run(library@, ks.skip(i as int))
                == scripts_run(library@, ks),
            forall|k: int| 0 <= k < i ==> #[trigger] script_named(library@, ks[k]) is Some,
        decreases keys@.len() - i,
    {
        proof {
            assert(ks.skip(i as int)[0] == ks[i as int]);
            assert(ks.skip(i as int).drop_first() == ks.skip(i + 1));
        }
        match find_script(library, &keys[i]) {
            None => {
                proof {
                    assert(scripts_run(library@, ks.skip(i as int)) == Seq::<int>::empty());
                    assert(found@.map_values(|j: usize| j as int) == scripts_run(library@, ks));
                }
                return (found, false);
            },
            Some(s) => {
                let ghost before = found@.map_values(|j: usize| j as int);
                found.push(s);
                proof {
                    assert(found@.map_values(|j: usize| j as int) =~= before.push(s as int));
                    assert(before.push(s as int) + scripts_run(library@, ks.skip(i + 1)) =~= before
                        + scripts_run(library@, ks.skip(i as int)));
                }
            },
        }
        i = i + 1;
    }
    proof {
        assert(ks.skip(i as int) =~= Seq::<Seq<char>>::empty());
        assert(found@.map_values(|j: usize| j as int) =~= scripts_run(library@, ks));
    }
    (found, true)
}

} // verus!
