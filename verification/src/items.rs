//! Items: what they are, and what dropping, taking, placing and listing
//! them does.
use vstd::prelude::*;

use crate::depiction::{names_match, names_match_exec};
use crate::interact::Interaction;
use crate::phrase::{
    cviews, is_sorted_arrangement, item_name_list, join, join_chars, name_counts_fit, names_phrase,
    sort_lex,
    sviews,
};
use crate::text::{append_chars, append_str, chars_of, eq_ignoring_ascii_case, lowercase, string_of};

verus! {

broadcast use vstd::string::group_string_axioms;

/// How much room an item takes.
#[derive(Clone, Copy, Debug, PartialEq, Eq, Structural)]
pub enum Size {
    Small,
    Medium,
    Large,
}

/// The room an item of a size takes on a surface.
pub open spec fn size_value(s: Size) -> nat {
    match s {
        Size::Small => 1,
        Size::Medium => 3,
        Size::Large => 5,
    }
}

impl Size {
    /// The room an item of this size takes on a surface.
    pub fn value(self) -> (r: u8)
        ensures
            r == size_value(self),
    {
        match self {
            Size::Small => 1,
            Size::Medium => 3,
            Size::Large => 5,
        }
    }
}

/// Where on a surface things are put.
#[derive(Clone, Copy, Debug, PartialEq, Eq, Structural)]
pub enum SurfaceKind {
    Floor,
    Wall,
    Ceiling,
    Interior,
}

/// The word that says where a thing goes on a surface of this kind.
pub open spec fn preposition(k: SurfaceKind) -> Seq<char> {
    match k {
        SurfaceKind::Floor => "on"@,
        SurfaceKind::Wall => "against"@,
        SurfaceKind::Ceiling => "on"@,
        SurfaceKind::Interior => "in"@,
    }
}

impl SurfaceKind {
    /// The word that says where a thing goes on a surface of this kind.
    pub fn preposition(&self) -> (r: String)
        ensures
            r@ == preposition(*self),
    {
        match self {
            SurfaceKind::Floor => String::from_str("on"),
            SurfaceKind::Wall => String::from_str("against"),
            SurfaceKind::Ceiling => String::from_str("on"),
            SurfaceKind::Interior => String::from_str("in"),
        }
    }
}

/// A thing that other things can be put on, against or in.
#[derive(Clone, Copy, Debug, PartialEq, Eq, Structural)]
pub struct Surface {
    pub kind: SurfaceKind,
    pub capacity: u8,
}

/// An item.
#[derive(Clone, Debug, PartialEq)]
pub struct Item {
    pub name: String,
    pub short_name: String,
    pub tags: Vec<String>,
    pub size: Size,
}

/// Whether the player's word names the item.
pub open spec fn item_matches(item: Item, query: Seq<char>) -> bool {
    names_match(item.name@, item.short_name@, sviews(item.tags@), query)
}

/// A player names an item by its name or its short name in any mix of ASCII
/// case, or by one of its tags, which are matched in lower case.
pub proof fn lemma_items_are_named_ignoring_case(item: Item, query: Seq<char>)
    ensures
        eq_ignoring_ascii_case(item.name@, query) ==> item_matches(item, query),
        eq_ignoring_ascii_case(item.short_name@, query) ==> item_matches(item, query),
        sviews(item.tags@).contains(lowercase(query)) ==> item_matches(item, query),
        !eq_ignoring_ascii_case(item.name@, query) && !eq_ignoring_ascii_case(
            item.short_name@,
            query,
        ) && !sviews(item.tags@).contains(lowercase(query)) ==> !item_matches(item, query),
{
}

/// Whether the player's word names the item: its name or short name,
/// ignoring ASCII case, or one of its tags in lower case.
pub fn item_name_matches(item: &Item, name: &str) -> (r: bool)
    ensures
        r == item_matches(*item, name@),
{
    names_match_exec(&item.name, &item.short_name, &item.tags, name)
}

/// An item in the world, with what the rules need to know of it.
pub struct ItemEntry {
    pub entity: u64,
    pub item: Item,
    pub interactions: Option<Vec<Interaction>>,
    pub surface: Option<Surface>,
}

/// Whether the item offers an interaction.
pub open spec fn offers(e: ItemEntry, i: Interaction) -> bool {
    match e.interactions {
        Some(v) => v@.contains(i),
        None => false,
    }
}

/// Whether the item offers an interaction.
pub fn entry_offers(e: &ItemEntry, i: Interaction) -> (r: bool)
    ensures
        r == offers(*e, i),
{
    match &e.interactions {
        None => false,
        Some(v) => {
            let mut k: usize = 0;
            while k < v.len()
                invariant
                    k <= v@.len(),
                    e.interactions matches Some(w) && w@ == v@,
                    forall|j: int| 0 <= j < k ==> #[trigger] v@[j] != i,
                decreases v@.len() - k,
            {
                if v[k] == i {
                    assert(v@[k as int] == i);
                    return true;
                }
                k = k + 1;
            }
            false
        },
    }
}

/// The positions of the items that the word names, in order.
pub open spec fn matching(items: Seq<ItemEntry>, query: Seq<char>) -> Seq<int>
    decreases items.len(),
{
    if items.len() == 0 {
        seq![]
    } else if item_matches(items.last().item, query) {
        matching(items.drop_last(), query).push(items.len() - 1)
    } else {
        matching(items.drop_last(), query)
    }
}

/// The first item that the word names.
pub open spec fn first_matching(items: Seq<ItemEntry>, query: Seq<char>) -> Option<int> {
    if matching(items, query).len() == 0 {
        None
    } else {
        Some(matching(items, query)[0])
    }
}

/// The positions chosen for a command with or without `all`: all matches,
/// or only the first.
pub open spec fn chosen(found: Seq<int>, all: bool) -> Seq<int> {
    if all || found.len() == 0 {
        found
    } else {
        found.take(1)
    }
}

/// Without `all`, a command moves at most one item: the first that the word
/// names, or none when no item is named. With `all`, it moves every item the
/// word names, in order.
pub proof fn lemma_without_all_only_the_first(items: Seq<ItemEntry>, query: Seq<char>)
    ensures
        (forall|i: int| 0 <= i < items.len() ==> !item_matches(#[trigger] items[i].item, query))
            ==> chosen(matching(items, query), false).len() == 0,
        forall|i: int|
            0 <= i < items.len() && item_matches(#[trigger] items[i].item, query) && (forall|j: int|
                0 <= j < i ==> !item_matches(items[j].item, query)) ==> chosen(
                matching(items, query),
                false,
            ) == seq![i],
        forall|i: int|
            0 <= i < items.len() ==> (item_matches(#[trigger] items[i].item, query) <==> chosen(
                matching(items, query),
                true,
            ).contains(i)),
{
    if matching(items, query).len() > 0 {
        lemma_first_match_is_named(items, query);
    }
    assert forall|i: int|
        0 <= i < items.len() && item_matches(#[trigger] items[i].item, query) && (forall|j: int|
            0 <= j < i ==> !item_matches(items[j].item, query)) implies chosen(
        matching(items, query),
        false,
    ) == seq![i] by {
        lemma_first_named_is_chosen(items, query, i);
    }
    assert forall|i: int| 0 <= i < items.len() implies (item_matches(
        #[trigger] items[i].item,
        query,
    ) <==> chosen(matching(items, query), true).contains(i)) by {
        lemma_named_is_matched(items, query, i);
    }
}

/// The first match is an item that the word names.
proof fn lemma_first_match_is_named(items: Seq<ItemEntry>, query: Seq<char>)
    requires
        matching(items, query).len() > 0,
    ensures
        0 <= matching(items, query)[0] < items.len(),
        item_matches(items[matching(items, query)[0]].item, query),
{
    lemma_matching_positions(items, query);
}

/// An item is among the matches exactly when the word names it.
proof fn lemma_named_is_matched(items: Seq<ItemEntry>, query: Seq<char>, i: int)
    requires
        0 <= i < items.len(),
    ensures
        item_matches(items[i].item, query) <==> matching(items, query).contains(i),
{
    lemma_matching_positions(items, query);
    let m = matching(items, query);
    if m.contains(i) {
        let k = choose|k: int| 0 <= k < m.len() && m[k] == i;
        assert(item_matches(items[m[k]].item, query));
    }
}

/// The first item the word names is the only one chosen without `all`.
proof fn lemma_first_named_is_chosen(items: Seq<ItemEntry>, query: Seq<char>, i: int)
    requires
        0 <= i < items.len(),
        item_matches(items[i].item, query),
        forall|j: int| 0 <= j < i ==> !item_matches(#[trigger] items[j].item, query),
    ensures
        chosen(matching(items, query), false) == seq![i],
{
    lemma_matching_positions(items, query);
    let m = matching(items, query);
    let k = choose|k: int| 0 <= k < m.len() && m[k] == i;
    assert(item_matches(items[m[0]].item, query));
    if k > 0 {
        assert(m[0] < m[k]);
    }
    assert(m[0] == i);
    assert(chosen(m, false) =~= seq![i]);
}

/// The entities at the given positions.
pub open spec fn entities_at(items: Seq<ItemEntry>, at: Seq<int>) -> Seq<u64> {
    at.map_values(|i: int| items[i].entity)
}

/// The names of the items at the given positions.
pub open spec fn names_at(items: Seq<ItemEntry>, at: Seq<int>) -> Seq<Seq<char>> {
    at.map_values(|i: int| items[i].item.name@)
}

/// The positions in `matching` lie within the list, in increasing order.
pub proof fn lemma_matching_positions(items: Seq<ItemEntry>, query: Seq<char>)
    ensures
        matching(items, query).len() <= items.len(),
        forall|k: int|
            0 <= k < matching(items, query).len() ==> 0 <= #[trigger] matching(items, query)[k]
                < items.len() && item_matches(items[matching(items, query)[k]].item, query),
        forall|k: int, j: int|
            0 <= k < j < matching(items, query).len() ==> #[trigger] matching(items, query)[k]
                < #[trigger] matching(items, query)[j],
        forall|i: int|
            0 <= i < items.len() && item_matches(#[trigger] items[i].item, query) ==> matching(
                items,
                query,
            ).contains(i),
    decreases items.len(),
{
    if items.len() > 0 {
        lemma_matching_positions(items.drop_last(), query);
        let pre = matching(items.drop_last(), query);
        assert forall|i: int|
            0 <= i < items.len() && item_matches(#[trigger] items[i].item, query) implies matching(
            items,
            query,
        ).contains(i) by {
            if i < items.len() - 1 {
                assert(items.drop_last()[i] == items[i]);
                let k = choose|k: int| 0 <= k < pre.len() && pre[k] == i;
                if item_matches(items.last().item, query) {
                    assert(pre.push(items.len() - 1)[k] == i);
                }
            } else {
                assert(pre.push(items.len() - 1)[pre.len() as int] == i);
            }
        }
        assert forall|k: int|
            0 <= k < matching(items, query).len() implies 0 <= #[trigger] matching(items, query)[k]
            < items.len() && item_matches(items[matching(items, query)[k]].item, query) by {
            if k < pre.len() {
                assert(items.drop_last()[pre[k]] == items[pre[k]]);
            }
        }
    }
}

/// Positions of the items that the word names.
pub fn find_matching(items: &[ItemEntry], query: &str) -> (r: Vec<usize>)
    ensures
        r@.map_values(|i: usize| i as int) == matching(items@, query@),
        r@.len() <= items@.len(),
{
    let mut r: Vec<usize> = Vec::new();
    let mut i: usize = 0;
    while i < items.len()
        invariant
            i <= items@.len(),
            r@.map_values(|k: usize| k as int) == matching(items@.take(i as int), query@),
        decreases items@.len() - i,
    {
        let ghost pre = items@.take(i as int);
        let ghost post = items@.take(i + 1);
        assert(post.drop_last() == pre);
        let ghost old_r = r@;
        if item_name_matches(&items[i].item, query) {
            r.push(i);
            assert(r@.map_values(|k: usize| k as int) =~= old_r.map_values(|k: usize| k as int).push(
                i as int,
            ));
        }
        i = i + 1;
    }
    assert(items@.take(items@.len() as int) == items@);
    proof {
        lemma_matching_positions(items@, query@);
        assert(r@.len() == r@.map_values(|i: usize| i as int).len());
    }
    r
}

/// The entities and names of the chosen items.
fn collect_chosen(items: &[ItemEntry], found: &Vec<usize>, all: bool) -> (r: (Vec<u64>, Vec<String>))
    requires
        forall|k: int| 0 <= k < found@.len() ==> #[trigger] found@[k] < items@.len(),
    ensures
        r.1@.len() <= found@.len(),
        r.0@ == entities_at(items@, chosen(found@.map_values(|i: usize| i as int), all)),
        sviews(r.1@) == names_at(items@, chosen(found@.map_values(|i: usize| i as int), all)),
{
    let ghost at = chosen(found@.map_values(|i: usize| i as int), all);
    let n = if all || found.len() == 0 {
        found.len()
    } else {
        1
    };
    assert(at.len() == n);
    let mut ents: Vec<u64> = Vec::new();
    let mut names: Vec<String> = Vec::new();
    let mut k: usize = 0;
    while k < n
        invariant
            k <= n <= found@.len(),
            at == chosen(found@.map_values(|i: usize| i as int), all),
            at.len() == n,
            forall|j: int| 0 <= j < n ==> at[j] == found@[j] as int,
            forall|j: int| 0 <= j < found@.len() ==> #[trigger] found@[j] < items@.len(),
            ents@ == entities_at(items@, at.take(k as int)),
            sviews(names@) == names_at(items@, at.take(k as int)),
        decreases n - k,
    {
        let e = &items[found[k]];
        let ghost old_ents = ents@;
        let ghost old_names = sviews(names@);
        ents.push(e.entity);
        let nm = e.item.name.clone();
        assert(nm@ == items@[at[k as int]].item.name@);
        names.push(nm);
        assert(at.take(k + 1) == at.take(k as int).push(at[k as int]));
        assert(names_at(items@, at.take(k + 1)) =~= names_at(items@, at.take(k as int)).push(
            items@[at[k as int]].item.name@,
        ));
        assert(sviews(names@) =~= old_names.push(nm@));
        assert(ents@ =~= entities_at(items@, at.take(k + 1)));
        assert(sviews(names@) =~= names_at(items@, at.take(k + 1)));
        k = k + 1;
    }
    assert(at.take(n as int) == at);
    (ents, names)
}

// ---------------------------------------------------------------------------
// inventory
// ---------------------------------------------------------------------------

/// Why the inventory cannot be listed.
#[derive(Debug, PartialEq)]
pub enum InventoryError {
    NotCarryingAnything,
}

impl InventoryError {
    /// The text shown to the player.
    pub fn message(&self) -> (r: String)
        ensures
            r@ == "You are not carrying anything."@,
    {
        String::from_str("You are not carrying anything.")
    }
}

/// The text that lists what a player carries: the names in lexicographic
/// order, joined by commas.
pub open spec fn carrying_text(names: Seq<Seq<char>>, text: Seq<char>) -> bool {
    exists|l: Seq<Seq<char>>|
        is_sorted_arrangement(l, names) && text == "You are carrying: "@ + join(l, ", "@)
}

/// Lists the names of the items a player carries.
pub fn list_items(names: &[String]) -> (r: Result<String, InventoryError>)
    ensures
        names@.len() == 0 ==> r == Err::<String, InventoryError>(InventoryError::NotCarryingAnything),
        names@.len() > 0 ==> (r matches Ok(text) && carrying_text(sviews(names@), text@)),
{
    if names.len() == 0 {
        return Err(InventoryError::NotCarryingAnything);
    }
    let mut v: Vec<Vec<char>> = Vec::new();
    let mut i: usize = 0;
    while i < names.len()
        invariant
            i <= names@.len(),
            cviews(v@) == sviews(names@).take(i as int),
        decreases names@.len() - i,
    {
        let ghost old_v = cviews(v@);
        v.push(chars_of(names[i].as_str()));
        assert(cviews(v@) =~= old_v.push(names@[i as int]@));
        assert(sviews(names@).take(i + 1) =~= sviews(names@).take(i as int).push(names@[i as int]@));
        i = i + 1;
    }
    assert(sviews(names@).take(names@.len() as int) == sviews(names@));
    let sorted = sort_lex(v);
    let mut text = chars_of("You are carrying: ");
    let joined = join_chars(sorted.as_slice(), ", ");
    append_chars(&mut text, joined.as_slice());
    Ok(string_of(text.as_slice()))
}

// ---------------------------------------------------------------------------
// drop
// ---------------------------------------------------------------------------

/// The text after dropping: what was dropped, or that there was nothing.
pub open spec fn drop_text(target: Seq<char>, dropped: Seq<Seq<char>>, text: Seq<char>) -> bool {
    if dropped.len() == 0 {
        text == "You don't have a "@ + target + "."@
    } else {
        exists|phrase: Seq<char>|
            names_phrase(dropped, phrase) && text == "You drop "@ + phrase + "."@
    }
}

/// Drops items from a player's inventory onto the tile: the first item that
/// the word names, or with `all` every one. Returns the entities that move
/// and the text for the player.
pub fn drop(target: &str, all: bool, inventory: &[ItemEntry]) -> (r: (Vec<u64>, String))
    requires
        name_counts_fit(names_at(inventory@, chosen(matching(inventory@, target@), all))),
    ensures
        r.0@ == entities_at(inventory@, chosen(matching(inventory@, target@), all)),
        drop_text(target@, names_at(inventory@, chosen(matching(inventory@, target@), all)), r.1@),
{
    let found = find_matching(inventory, target);
    proof {
        lemma_matching_positions(inventory@, target@);
        assert forall|k: int| 0 <= k < found@.len() implies #[trigger] found@[k] < inventory@.len() by {
            assert(found@.map_values(|i: usize| i as int)[k] == found@[k] as int);
        }
    }
    let (ents, names) = collect_chosen(inventory, &found, all);
    if names.len() == 0 {
        let mut text = chars_of("You don't have a ");
        append_str(&mut text, target);
        append_str(&mut text, ".");
        return (ents, string_of(text.as_slice()));
    }
    let phrase = item_name_list(names.as_slice());
    let mut text = chars_of("You drop ");
    append_str(&mut text, phrase.as_str());
    append_str(&mut text, ".");
    (ents, string_of(text.as_slice()))
}

// ---------------------------------------------------------------------------
// take
// ---------------------------------------------------------------------------

/// The first item on the tile that is a surface and that the word names.
pub open spec fn source_surface(siblings: Seq<ItemEntry>, source: Seq<char>) -> Option<int> {
    if exists|i: int|
        0 <= i < siblings.len() && siblings[i].surface is Some && #[trigger] item_matches(
            siblings[i].item,
            source,
        ) {
        Some(
            choose|i: int|
                0 <= i < siblings.len() && siblings[i].surface is Some && #[trigger] item_matches(
                    siblings[i].item,
                    source,
                ) && forall|k: int|
                    0 <= k < i ==> !(siblings[k].surface is Some && #[trigger] item_matches(
                        siblings[k].item,
                        source,
                    )),
        )
    } else {
        None
    }
}

/// Finds the surface on the tile that a `take ... from <source>` names; the
/// items to search are then the ones it holds.
pub fn find_source(siblings: &[ItemEntry], source: &str) -> (r: Option<usize>)
    ensures
        match r {
            Some(i) => i < siblings@.len() && source_surface(siblings@, source@) == Some(i as int),
            None => source_surface(siblings@, source@) is None,
        },
{
    let mut i: usize = 0;
    while i < siblings.len()
        invariant
            i <= siblings@.len(),
            forall|k: int|
                0 <= k < i ==> !(siblings@[k].surface is Some && #[trigger] item_matches(
                    siblings@[k].item,
                    source@,
                )),
        decreases siblings@.len() - i,
    {
        if siblings[i].surface.is_some() && item_name_matches(&siblings[i].item, source) {
            let ghost w = i as int;
            let ghost c = choose|j: int|
                0 <= j < siblings@.len() && siblings@[j].surface is Some && #[trigger] item_matches(
                    siblings@[j].item,
                    source@,
                ) && forall|k: int|
                    0 <= k < j ==> !(siblings@[k].surface is Some && #[trigger] item_matches(
                        siblings@[k].item,
                        source@,
                    ));
            assert(siblings@[w].surface is Some && item_matches(siblings@[w].item, source@));
            assert(c == w) by {
                if c > w {
                    assert(!(siblings@[w].surface is Some && item_matches(
                        siblings@[w].item,
                        source@,
                    )));
                }
            }
            return Some(i);
        }
        i = i + 1;
    }
    None
}

/// Why a `take` failed.
#[derive(Debug, PartialEq)]
pub enum TakeError {
    /// Nothing by that name is here (the name is the source, when one was given).
    NotFound(String),
    /// One of the items found cannot be taken.
    NotTakeable,
}

impl TakeError {
    /// The text shown to the player.
    pub fn message(&self) -> (r: String)
        ensures
            r@ == (match self {
                TakeError::NotFound(t) => "You don't see a "@ + t@ + " here."@,
                TakeError::NotTakeable => "You can't take that."@,
            }),
    {
        match self {
            TakeError::NotFound(t) => {
                let mut v = chars_of("You don't see a ");
                append_str(&mut v, t.as_str());
                append_str(&mut v, " here.");
                string_of(v.as_slice())
            },
            TakeError::NotTakeable => String::from_str("You can't take that."),
        }
    }
}

/// Takes items into a player's inventory from `to_search` (the tile, or the
/// surface that the source names). Nothing found: `NotFound` with the source
/// if there is one, else the target. Any item found that does not offer
/// `Take`: `NotTakeable`. Otherwise the first item found, or with `all` every
/// one, moves.
pub fn take(target: &str, all: bool, source: Option<&str>, to_search: &[ItemEntry]) -> (r:
    Result<(Vec<u64>, String), TakeError>)
    requires
        name_counts_fit(names_at(to_search@, chosen(matching(to_search@, target@), all))),
    ensures
        ({
            let found = matching(to_search@, target@);
            if found.len() == 0 {
                r matches Err(TakeError::NotFound(t)) && t@ == (match source {
                    Some(s) => s@,
                    None => target@,
                })
            } else if exists|k: int|
                0 <= k < found.len() && !offers(to_search@[#[trigger] found[k]], Interaction::Take) {
                r == Err::<(Vec<u64>, String), TakeError>(TakeError::NotTakeable)
            } else {
                r matches Ok((moved, text)) && moved@ == entities_at(
                    to_search@,
                    chosen(found, all),
                ) && exists|phrase: Seq<char>|
                    names_phrase(names_at(to_search@, chosen(found, all)), phrase) && text@
                        == "You take "@ + phrase + "."@
            }
        }),
{
    let found = find_matching(to_search, target);
    let ghost fv = found@.map_values(|i: usize| i as int);
    proof {
        lemma_matching_positions(to_search@, target@);
        assert forall|k: int| 0 <= k < found@.len() implies #[trigger] found@[k] < to_search@.len() by {
            assert(fv[k] == found@[k] as int);
        }
        assert(fv == matching(to_search@, target@));
    }
    if found.len() == 0 {
        let name = match source {
            Some(s) => String::from_str(s),
            None => String::from_str(target),
        };
        return Err(TakeError::NotFound(name));
    }
    let mut k: usize = 0;
    while k < found.len()
        invariant
            k <= found@.len(),
            fv == found@.map_values(|i: usize| i as int),
            fv == matching(to_search@, target@),
            forall|j: int| 0 <= j < found@.len() ==> #[trigger] found@[j] < to_search@.len(),
            forall|j: int|
                0 <= j < k ==> offers(to_search@[#[trigger] fv[j]], Interaction::Take),
        decreases found@.len() - k,
    {
        if !entry_offers(&to_search[found[k]], Interaction::Take) {
            assert(!offers(to_search@[fv[k as int]], Interaction::Take));
            assert(matching(to_search@, target@)[k as int] == fv[k as int]);
            return Err(TakeError::NotTakeable);
        }
        k = k + 1;
    }
    let (ents, names) = collect_chosen(to_search, &found, all);
    let phrase = item_name_list(names.as_slice());
    let mut text = chars_of("You take ");
    append_str(&mut text, phrase.as_str());
    append_str(&mut text, ".");
    Ok((ents, string_of(text.as_slice())))
}

// ---------------------------------------------------------------------------
// place
// ---------------------------------------------------------------------------

/// Why the object of a `place` cannot be placed.
#[derive(Debug, PartialEq)]
pub enum ObjectError {
    /// The player carries nothing by that name.
    NotFound(String),
    /// The item does not offer `Place`; the name is the item's.
    NotPlacable(String),
}

impl ObjectError {
    /// The text shown to the player.
    pub fn message(&self) -> (r: String)
        ensures
            r@ == (match self {
                ObjectError::NotFound(t) => "You don't have a "@ + t@ + "."@,
                ObjectError::NotPlacable(n) => "You can't place the "@ + n@ + "."@,
            }),
    {
        match self {
            ObjectError::NotFound(t) => {
                let mut v = chars_of("You don't have a ");
                append_str(&mut v, t.as_str());
                append_str(&mut v, ".");
                string_of(v.as_slice())
            },
            ObjectError::NotPlacable(n) => {
                let mut v = chars_of("You can't place the ");
                append_str(&mut v, n.as_str());
                append_str(&mut v, ".");
                string_of(v.as_slice())
            },
        }
    }
}

/// Finds the item to place among those the player carries: the first that
/// the word names, which must offer `Place`.
pub fn get_object(target: &str, inventory: &[ItemEntry]) -> (r: Result<usize, ObjectError>)
    ensures
        match first_matching(inventory@, target@) {
            None => r matches Err(ObjectError::NotFound(t)) && t@ == target@,
            Some(i) => if offers(inventory@[i], Interaction::Place) {
                r == Ok::<usize, ObjectError>(i as usize) && 0 <= i < inventory@.len()
            } else {
                r matches Err(ObjectError::NotPlacable(n)) && n@ == inventory@[i].item.name@
            },
        },
{
    let found = find_matching(inventory, target);
    proof {
        lemma_matching_positions(inventory@, target@);
    }
    if found.len() == 0 {
        return Err(ObjectError::NotFound(String::from_str(target)));
    }
    let i = found[0];
    assert(found@.map_values(|k: usize| k as int)[0] == i as int);
    if !entry_offers(&inventory[i], Interaction::Place) {
        return Err(ObjectError::NotPlacable(inventory[i].item.name.clone()));
    }
    Ok(i)
}

/// Why the target of a `place` was not found.
#[derive(Debug, PartialEq)]
pub enum PlaceTargetError {
    NotFound(String),
}

impl PlaceTargetError {
    /// The text shown to the player.
    pub fn message(&self) -> (r: String)
        ensures
            r@ == (match self {
                PlaceTargetError::NotFound(t) => "You don't see a "@ + t@ + " here."@,
            }),
    {
        match self {
            PlaceTargetError::NotFound(t) => {
                let mut v = chars_of("You don't see a ");
                append_str(&mut v, t.as_str());
                append_str(&mut v, " here.");
                string_of(v.as_slice())
            },
        }
    }
}

/// Finds the item on the tile to place something on: the first that the
/// word names.
pub fn get_place_target(target: &str, siblings: &[ItemEntry]) -> (r: Result<usize, PlaceTargetError>)
    ensures
        match first_matching(siblings@, target@) {
            None => r matches Err(PlaceTargetError::NotFound(t)) && t@ == target@,
            Some(i) => r == Ok::<usize, PlaceTargetError>(i as usize) && 0 <= i < siblings@.len(),
        },
{
    let found = find_matching(siblings, target);
    proof {
        lemma_matching_positions(siblings@, target@);
    }
    if found.len() == 0 {
        return Err(PlaceTargetError::NotFound(String::from_str(target)));
    }
    assert(found@.map_values(|k: usize| k as int)[0] == found@[0] as int);
    Ok(found[0])
}

/// Why an item cannot go on the target.
#[derive(Debug, PartialEq)]
pub enum PlaceError {
    /// The target has no room left; the name is the target's.
    AtCapacity(String),
    /// The target is not a surface; the names are the object's and the target's.
    NotPlacable(String, String),
}

impl PlaceError {
    /// The text shown to the player.
    pub fn message(&self) -> (r: String)
        ensures
            r@ == (match self {
                PlaceError::AtCapacity(t) => "The "@ + t@ + " is full."@,
                PlaceError::NotPlacable(o, t) => "You can't place the "@ + o@ + " on the "@ + t@
                    + "."@,
            }),
    {
        match self {
            PlaceError::AtCapacity(t) => {
                let mut v = chars_of("The ");
                append_str(&mut v, t.as_str());
                append_str(&mut v, " is full.");
                string_of(v.as_slice())
            },
            PlaceError::NotPlacable(o, t) => {
                let mut v = chars_of("You can't place the ");
                append_str(&mut v, o.as_str());
                append_str(&mut v, " on the ");
                append_str(&mut v, t.as_str());
                append_str(&mut v, ".");
                string_of(v.as_slice())
            },
        }
    }
}

/// The room the given sizes take together.
pub open spec fn total_size(sizes: Seq<Size>) -> nat
    decreases sizes.len(),
{
    if sizes.len() == 0 {
        0
    } else {
        total_size(sizes.drop_last()) + size_value(sizes.last())
    }
}

/// A prefix of the sizes takes no more room than all of them.
proof fn lemma_total_size_prefix(sizes: Seq<Size>, n: int)
    requires
        0 <= n <= sizes.len(),
    ensures
        total_size(sizes.take(n)) <= total_size(sizes),
    decreases sizes.len(),
{
    if n < sizes.len() {
        lemma_total_size_prefix(sizes.drop_last(), n);
        assert(sizes.drop_last().take(n) == sizes.take(n));
    } else {
        assert(sizes.take(n) == sizes);
    }
}

/// The room the given sizes take together, summed as a byte as the room on
/// a surface is (the sum must fit in one).
pub fn sum_sizes(sizes: &[Size]) -> (r: u8)
    requires
        total_size(sizes@) <= 255,
    ensures
        r == total_size(sizes@),
{
    let mut r: u8 = 0;
    let mut i: usize = 0;
    while i < sizes.len()
        invariant
            i <= sizes@.len(),
            total_size(sizes@) <= 255,
            r == total_size(sizes@.take(i as int)),
        decreases sizes@.len() - i,
    {
        assert(sizes@.take(i + 1).drop_last() == sizes@.take(i as int));
        proof {
            lemma_total_size_prefix(sizes@, i + 1);
        }
        r = r + sizes[i].value();
        i = i + 1;
    }
    assert(sizes@.take(sizes@.len() as int) == sizes@);
    r
}

/// Puts `object` on `target`, which already holds the items of the sizes in
/// `contents` (`None` when it holds nothing, in which case its capacity is not
/// consulted). The target must be a surface, and the room taken with the
/// object must not exceed its capacity.
pub fn place_object(object: &ItemEntry, target: &ItemEntry, contents: Option<&[Size]>) -> (r:
    Result<String, PlaceError>)
    requires
        target.surface is Some ==> (contents matches Some(c) ==> total_size(c@) + size_value(
            object.item.size,
        ) <= 255),
    ensures
        match target.surface {
            None => r matches Err(PlaceError::NotPlacable(o, t)) && o@ == object.item.name@ && t@
                == target.item.name@,
            Some(surface) => if (contents matches Some(c) && total_size(c@) + size_value(
                object.item.size,
            ) > surface.capacity) {
                r matches Err(PlaceError::AtCapacity(t)) && t@ == target.item.name@
            } else {
                r matches Ok(text) && text@ == "You place the "@ + object.item.name@ + " "@
                    + preposition(surface.kind) + " the "@ + target.item.name@ + "."@
            },
        },
{
    let surface = match target.surface {
        None => {
            return Err(
                PlaceError::NotPlacable(object.item.name.clone(), target.item.name.clone()),
            );
        },
        Some(s) => s,
    };
    match contents {
        Some(c) => {
            let used = sum_sizes(c);
            if used + object.item.size.value() > surface.capacity {
                return Err(PlaceError::AtCapacity(target.item.name.clone()));
            }
        },
        None => {},
    }
    let mut v = chars_of("You place the ");
    append_str(&mut v, object.item.name.as_str());
    append_str(&mut v, " ");
    let p = surface.kind.preposition();
    append_str(&mut v, p.as_str());
    append_str(&mut v, " the ");
    append_str(&mut v, target.item.name.as_str());
    append_str(&mut v, ".");
    Ok(string_of(v.as_slice()))
}

/// What a `place` command comes to: the object's and the target's entities
/// and the text shown, or the text of the refusal. The object is looked for
/// first, among the items the player carries, then the target, among the
/// items on the tile; `contents` holds, for each of those, the sizes of the
/// items it holds (`None` when it holds nothing).
pub open spec fn place_outcome(
    object: Seq<char>,
    target: Seq<char>,
    inventory: Seq<ItemEntry>,
    siblings: Seq<ItemEntry>,
    contents: Seq<Option<Vec<Size>>>,
) -> Result<(u64, u64, Seq<char>), Seq<char>> {
    match first_matching(inventory, object) {
        None => Err("You don't have a "@ + object + "."@),
        Some(o) => if !offers(inventory[o], Interaction::Place) {
            Err("You can't place the "@ + inventory[o].item.name@ + "."@)
        } else {
            match first_matching(siblings, target) {
                None => Err("You don't see a "@ + target + " here."@),
                Some(t) => match siblings[t].surface {
                    None => Err(
                        "You can't place the "@ + inventory[o].item.name@ + " on the "@
                            + siblings[t].item.name@ + "."@,
                    ),
                    Some(surface) => if (contents[t] matches Some(c) && total_size(c@)
                        + size_value(inventory[o].item.size) > surface.capacity) {
                        Err("The "@ + siblings[t].item.name@ + " is full."@)
                    } else {
                        Ok(
                            (
                                inventory[o].entity,
                                siblings[t].entity,
                                "You place the "@ + inventory[o].item.name@ + " "@ + preposition(
                                    surface.kind,
                                ) + " the "@ + siblings[t].item.name@ + "."@,
                            ),
                        )
                    },
                },
            }
        },
    }
}

/// Whether the room taken on the target chosen by a `place` command, with the
/// object, can be counted in a byte (where the target holds something).
pub open spec fn place_room_fits(
    object: Seq<char>,
    target: Seq<char>,
    inventory: Seq<ItemEntry>,
    siblings: Seq<ItemEntry>,
    contents: Seq<Option<Vec<Size>>>,
) -> bool {
    match (first_matching(inventory, object), first_matching(siblings, target)) {
        (Some(o), Some(t)) => offers(inventory[o], Interaction::Place) && siblings[t].surface
            is Some && contents[t] is Some ==> total_size(contents[t]->0@) + size_value(
            inventory[o].item.size,
        ) <= 255,
        _ => true,
    }
}

/// Handles `place <object> on|against|in <target>`: finds the object among
/// the items the player carries, then the target among the items on the
/// tile, and puts the one on the other if there is room.
pub fn place(
    object: &str,
    target: &str,
    inventory: &[ItemEntry],
    siblings: &[ItemEntry],
    contents: &[Option<Vec<Size>>],
) -> (r: Result<(u64, u64, String), String>)
    requires
        contents@.len() == siblings@.len(),
        place_room_fits(object@, target@, inventory@, siblings@, contents@),
    ensures
        (match r {
            Ok((o, t, text)) => Ok((o, t, text@)),
            Err(e) => Err(e@),
        }) == place_outcome(object@, target@, inventory@, siblings@, contents@),
{
    let o = match get_object(object, inventory) {
        Err(e) => return Err(e.message()),
        Ok(o) => o,
    };
    let t = match get_place_target(target, siblings) {
        Err(e) => return Err(e.message()),
        Ok(t) => t,
    };
    let held: Option<&[Size]> = match &contents[t] {
        Some(c) => Some(c.as_slice()),
        None => None,
    };
    match place_object(&inventory[o], &siblings[t], held) {
        Err(e) => Err(e.message()),
        Ok(text) => Ok((inventory[o].entity, siblings[t].entity, text)),
    }
}

} // verus!
