//! What the world keeps of each character between sessions: the tile where
//! the character stood and the items it carried.
use vstd::prelude::*;

verus! {

/// The saved state of one character.
pub struct WorldStateCharacter {
    pub id: i64,
    pub tile: String,
    pub inventory: Vec<String>,
}

/// A saved character as plain values: its id, tile name and item names.
pub open spec fn saved_view(c: WorldStateCharacter) -> (i64, Seq<char>, Seq<Seq<char>>) {
    (c.id, c.tile@, c.inventory@.map_values(|s: String| s@))
}

/// The saved characters as plain values.
pub open spec fn saved_views(s: Seq<WorldStateCharacter>) -> Seq<(i64, Seq<char>, Seq<Seq<char>>)> {
    s.map_values(|c: WorldStateCharacter| saved_view(c))
}

/// The position of the first saved character with this id, if any.
pub open spec fn first_saved(s: Seq<(i64, Seq<char>, Seq<Seq<char>>)>, id: i64) -> Option<int>
    decreases s.len(),
{
    if s.len() == 0 {
        None
    } else if s.last().0 == id && first_saved(s.drop_last(), id) is None {
        Some(s.len() - 1)
    } else {
        first_saved(s.drop_last(), id)
    }
}

/// The saved characters once `state` is recorded: it replaces the first entry
/// with its id, or is appended when there is none.
pub open spec fn recorded(
    s: Seq<(i64, Seq<char>, Seq<Seq<char>>)>,
    state: (i64, Seq<char>, Seq<Seq<char>>),
) -> Seq<(i64, Seq<char>, Seq<Seq<char>>)> {
    match first_saved(s, state.0) {
        Some(i) => s.update(i, state),
        None => s.push(state),
    }
}

/// The first saved character with this id is at position `i` exactly when
/// it has the id and no earlier one has it.
pub proof fn lemma_first_saved(s: Seq<(i64, Seq<char>, Seq<Seq<char>>)>, id: i64)
    ensures
        match first_saved(s, id) {
            Some(i) => 0 <= i < s.len() && s[i].0 == id && forall|j: int|
                0 <= j < i ==> s[j].0 != id,
            None => forall|j: int| 0 <= j < s.len() ==> s[j].0 != id,
        },
    decreases s.len(),
{
    if s.len() > 0 {
        let t = s.drop_last();
        lemma_first_saved(t, id);
        assert(forall|j: int| 0 <= j < t.len() ==> t[j] == s[j]);
    }
}

/// A position that has the id, with no earlier one that has it, is the first.
pub proof fn lemma_first_saved_at(s: Seq<(i64, Seq<char>, Seq<Seq<char>>)>, id: i64, i: int)
    requires
        0 <= i < s.len(),
        s[i].0 == id,
        forall|j: int| 0 <= j < i ==> s[j].0 != id,
    ensures
        first_saved(s, id) == Some(i),
    decreases s.len(),
{
    lemma_first_saved(s, id);
    let t = s.drop_last();
    assert(forall|j: int| 0 <= j < t.len() ==> t[j] == s[j]);
    if i < s.len() - 1 {
        lemma_first_saved_at(t, id, i);
    } else {
        lemma_first_saved(t, id);
    }
}

/// Finds the saved state of a character.
pub fn find_saved(characters: &[WorldStateCharacter], id: i64) -> (r: Option<usize>)
    ensures
        match r {
            Some(i) => first_saved(saved_views(characters@), id) == Some(i as int),
            None => first_saved(saved_views(characters@), id) is None,
        },
{
    let ghost s = saved_views(characters@);
    let mut i: usize = 0;
    while i < characters.len()
        invariant
            i <= characters@.len(),
            s == saved_views(characters@),
            forall|j: int| 0 <= j < i ==> s[j].0 != id,
        decreases characters@.len() - i,
    {
        if characters[i].id == id {
            proof {
                lemma_first_saved_at(s, id, i as int);
            }
            return Some(i);
        }
        i = i + 1;
    }
    proof {
        lemma_first_saved(s, id);
    }
    None
}

/// Records the state of a character that leaves: it replaces the character's
/// earlier state, or is added when the world has none for it yet.
pub fn record_character(characters: &mut Vec<WorldStateCharacter>, state: WorldStateCharacter)
    ensures
        saved_views(final(characters)@) == recorded(saved_views(old(characters)@), saved_view(state)),
{
    let ghost st = saved_view(state);
    let found = find_saved(characters.as_slice(), state.id);
    proof {
        lemma_first_saved(saved_views(characters@), state.id);
    }
    match found {
        Some(i) => {
            characters.set(i, state);
            assert(saved_views(characters@) == saved_views(old(characters)@).update(i as int, st));
        },
        None => {
            characters.push(state);
            assert(saved_views(characters@) == saved_views(old(characters)@).push(st));
        },
    }
}

/// Whatever was saved before, looking a character up right after its state
/// was recorded finds that state.
pub proof fn lemma_recorded_is_found(
    s: Seq<(i64, Seq<char>, Seq<Seq<char>>)>,
    state: (i64, Seq<char>, Seq<Seq<char>>),
)
    ensures
        first_saved(recorded(s, state), state.0) matches Some(i) && recorded(s, state)[i] == state,
{
    lemma_first_saved(s, state.0);
    let r = recorded(s, state);
    match first_saved(s, state.0) {
        Some(i) => {
            lemma_first_saved_at(r, state.0, i);
        },
        None => {
            lemma_first_saved_at(r, state.0, s.len() as int);
        },
    }
}

/// Recording one character leaves what is saved of every other character as
/// it was.
pub proof fn lemma_recorded_keeps_others(
    s: Seq<(i64, Seq<char>, Seq<Seq<char>>)>,
    state: (i64, Seq<char>, Seq<Seq<char>>),
    other: i64,
)
    requires
        other != state.0,
    ensures
        match first_saved(s, other) {
            Some(i) => first_saved(recorded(s, state), other) == Some(i) && recorded(s, state)[i]
                == s[i],
            None => first_saved(recorded(s, state), other) is None,
        },
{
    lemma_first_saved(s, other);
    lemma_first_saved(s, state.0);
    let r = recorded(s, state);
    lemma_first_saved(r, other);
    match first_saved(s, other) {
        Some(i) => {
            lemma_first_saved_at(r, other, i);
        },
        None => {
            assert forall|j: int| 0 <= j < r.len() implies r[j].0 != other by {
                if j < s.len() {
                    assert(r[j].0 == s[j].0 || r[j] == state);
                }
            }
        },
    }
}

} // verus!
