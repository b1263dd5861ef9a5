//! What a player can do with the things around them: examining a thing
//! opens a menu of its interactions, and a number chosen from the menu
//! performs one.
use vstd::prelude::*;

use crate::depiction::Depiction;
use crate::phrase::{cviews, join, join_chars};
use crate::text::{append_chars, append_str, chars_of, decimal, decimal_chars, string_of};

verus! {

broadcast use vstd::string::group_string_axioms;

/// Something a player can do with a thing.
#[derive(Clone, Copy, Debug, PartialEq, Eq, Structural)]
pub enum Interaction {
    Attack,
    Place,
    Sit,
    Take,
}

/// The name under which an interaction is offered.
pub open spec fn interaction_name(i: Interaction) -> Seq<char> {
    match i {
        Interaction::Attack => "Attack"@,
        Interaction::Place => "Place"@,
        Interaction::Sit => "Sit"@,
        Interaction::Take => "Take"@,
    }
}

/// Whether an interaction is offered in the menu that examining opens.
pub open spec fn spec_usable_in_menu(i: Interaction) -> bool {
    match i {
        Interaction::Place => false,
        _ => true,
    }
}

impl Interaction {
    /// The name under which the interaction is offered.
    pub fn name(&self) -> (r: String)
        ensures
            r@ == interaction_name(*self),
    {
        match self {
            Interaction::Attack => String::from_str("Attack"),
            Interaction::Place => String::from_str("Place"),
            Interaction::Sit => String::from_str("Sit"),
            Interaction::Take => String::from_str("Take"),
        }
    }

    /// Whether the interaction is offered in the menu.
    pub fn usable_in_menu(&self) -> (r: bool)
        ensures
            r == spec_usable_in_menu(*self),
    {
        match self {
            Interaction::Attack => true,
            Interaction::Place => false,
            Interaction::Sit => true,
            Interaction::Take => true,
        }
    }
}

/// The interactions offered in a menu, in their order.
pub open spec fn usable(s: Seq<Interaction>) -> Seq<Interaction>
    decreases s.len(),
{
    if s.len() == 0 {
        s
    } else if spec_usable_in_menu(s.last()) {
        usable(s.drop_last()).push(s.last())
    } else {
        usable(s.drop_last())
    }
}

/// The lines of a menu: "[n] Name" for each offered interaction, where `n` is
/// its position (from 1) among all the thing's interactions.
pub open spec fn menu_options(s: Seq<Interaction>) -> Seq<Seq<char>>
    decreases s.len(),
{
    if s.len() == 0 {
        seq![]
    } else if spec_usable_in_menu(s.last()) {
        menu_options(s.drop_last()).push(
            "["@ + decimal(s.len()) + "] "@ + interaction_name(s.last()),
        )
    } else {
        menu_options(s.drop_last())
    }
}

/// The menu lines for a list of interactions.
pub fn get_interactions(interactions: &[Interaction]) -> (r: Vec<Vec<char>>)
    requires
        interactions@.len() < u64::MAX,
    ensures
        cviews(r@) == menu_options(interactions@),
{
    let mut r: Vec<Vec<char>> = Vec::new();
    let mut i: usize = 0;
    while i < interactions.len()
        invariant
            i <= interactions@.len() < u64::MAX,
            cviews(r@) == menu_options(interactions@.take(i as int)),
        decreases interactions@.len() - i,
    {
        let ghost pre = interactions@.take(i as int);
        let ghost post = interactions@.take(i + 1);
        assert(post.drop_last() == pre);
        let ghost old_r = cviews(r@);
        let it = interactions[i];
        if it.usable_in_menu() {
            let mut line = chars_of("[");
            let n = decimal_chars((i + 1) as u64);
            append_chars(&mut line, n.as_slice());
            append_str(&mut line, "] ");
            let name = it.name();
            append_str(&mut line, name.as_str());
            r.push(line);
            assert(cviews(r@) =~= old_r.push(line@));
        }
        i = i + 1;
    }
    assert(interactions@.take(interactions@.len() as int) == interactions@);
    r
}

/// Something that can be examined.
pub struct Interactable {
    pub entity: u64,
    pub depiction: Depiction,
    pub interactions: Option<Vec<Interaction>>,
}

/// The first of `things` that the player's word names.
pub open spec fn first_match(things: Seq<Interactable>, query: Seq<char>) -> Option<int> {
    if exists|i: int| 0 <= i < things.len() && #[trigger] things[i].depiction.spec_matches(query) {
        Some(
            choose|i: int|
                0 <= i < things.len() && #[trigger] things[i].depiction.spec_matches(query) && (
                forall|k: int| 0 <= k < i ==> !#[trigger] things[k].depiction.spec_matches(query)),
        )
    } else {
        None
    }
}

/// The text that shows the menu of a thing.
pub open spec fn menu_text(interactions: Seq<Interaction>) -> Seq<char> {
    "After thorough inspection, you find you are able to do the following:\n\n"@ + join(
        menu_options(interactions),
        ", "@,
    ) + "\n\nType \"quit\" to leave menu."@
}

/// What examining a thing does.
#[derive(Debug, PartialEq)]
pub enum ExamineOutcome {
    /// The player enters the menu of this thing and is shown the text.
    Menu { entity: u64, text: String },
    /// The thing has no interactions; the player is told so.
    NoInteractions(String),
}

/// Why examining failed.
#[derive(Debug, PartialEq)]
pub enum TargetError {
    NotFound(String),
}

impl TargetError {
    /// The text shown to the player.
    pub fn message(&self) -> (r: String)
        ensures
            r@ == (match self {
                TargetError::NotFound(t) => "You don't see a "@ + t@ + " here"@,
            }),
    {
        match self {
            TargetError::NotFound(t) => {
                let mut v = chars_of("You don't see a ");
                append_str(&mut v, t.as_str());
                append_str(&mut v, " here");
                string_of(v.as_slice())
            },
        }
    }
}

/// The first thing among `things` that the player's word names.
pub fn find_target(query: &str, things: &[Interactable]) -> (r: Option<usize>)
    ensures
        match r {
            Some(i) => i < things@.len() && first_match(things@, query@) == Some(i as int),
            None => first_match(things@, query@) is None,
        },
{
    let mut i: usize = 0;
    while i < things.len()
        invariant
            i <= things@.len(),
            forall|k: int| 0 <= k < i ==> !#[trigger] things@[k].depiction.spec_matches(query@),
        decreases things@.len() - i,
    {
        if things[i].depiction.matches_query(query) {
            let ghost w = i as int;
            assert(things@[w].depiction.spec_matches(query@));
            let ghost c = choose|j: int|
                0 <= j < things@.len() && #[trigger] things@[j].depiction.spec_matches(query@) && (
                forall|k: int| 0 <= k < j ==> !#[trigger] things@[k].depiction.spec_matches(query@));
            assert(c == w) by {
                if c < w {
                } else if c > w {
                    assert(!things@[w].depiction.spec_matches(query@));
                }
            }
            return Some(i);
        }
        i = i + 1;
    }
    None
}

/// Examines the thing that the player's word names among those on the tile:
/// its menu when it has interactions, otherwise a note that it has none.
pub fn execute_examine(target: &str, siblings: &[Interactable]) -> (r: Result<
    ExamineOutcome,
    TargetError,
>)
    requires
        forall|i: int|
            0 <= i < siblings@.len() ==> (#[trigger] siblings@[i].interactions matches Some(v)
                ==> v@.len() < u64::MAX),
    ensures
        match first_match(siblings@, target@) {
            None => r matches Err(TargetError::NotFound(t)) && t@ == target@,
            Some(i) => match siblings@[i].interactions {
                Some(v) => r matches Ok(ExamineOutcome::Menu { entity, text }) && entity
                    == siblings@[i].entity && text@ == menu_text(v@),
                None => r matches Ok(ExamineOutcome::NoInteractions(text)) && text@
                    == siblings@[i].depiction.name@ + " has no interactions."@,
            },
        },
{
    match find_target(target, siblings) {
        None => Err(TargetError::NotFound(String::from_str(target))),
        Some(i) => {
            let thing = &siblings[i];
            match &thing.interactions {
                Some(v) => {
                    let opts = get_interactions(v.as_slice());
                    let mut text = chars_of(
                        "After thorough inspection, you find you are able to do the following:\n\n",
                    );
                    let joined = join_chars(opts.as_slice(), ", ");
                    append_chars(&mut text, joined.as_slice());
                    append_str(&mut text, "\n\nType \"quit\" to leave menu.");
                    Ok(ExamineOutcome::Menu { entity: thing.entity, text: string_of(text.as_slice()) })
                },
                None => {
                    let mut text = chars_of(thing.depiction.name.as_str());
                    append_str(&mut text, " has no interactions.");
                    Ok(ExamineOutcome::NoInteractions(string_of(text.as_slice())))
                },
            }
        },
    }
}

/// The value of a sequence of ASCII digits.
pub open spec fn digits_value(d: Seq<char>) -> nat
    decreases d.len(),
{
    if d.len() == 0 {
        0
    } else {
        digits_value(d.drop_last()) * 10 + ((d.last() as int - 48) as nat)
    }
}

/// Every character is an ASCII digit.
pub open spec fn all_digits(d: Seq<char>) -> bool {
    forall|i: int| 0 <= i < d.len() ==> '0' <= #[trigger] d[i] <= '9'
}

/// What `str::parse::<usize>` accepts: an optional `+` and at least one
/// ASCII digit, with a value that fits in `usize`.
pub open spec fn parsed_usize(s: Seq<char>) -> Option<nat> {
    let d = if s.len() > 0 && s[0] == '+' {
        s.drop_first()
    } else {
        s
    };
    if d.len() > 0 && all_digits(d) && digits_value(d) <= usize::MAX {
        Some(digits_value(d))
    } else {
        None
    }
}

/// `digits_value` grows with each digit.
proof fn lemma_digits_value_monotone(d: Seq<char>, k: int)
    requires
        0 <= k <= d.len(),
        all_digits(d),
    ensures
        digits_value(d.take(k)) <= digits_value(d),
    decreases d.len() - k,
{
    if k < d.len() {
        lemma_digits_value_monotone(d, k + 1);
        assert(d.take(k + 1).drop_last() == d.take(k));
        assert('0' <= d.take(k + 1).last());
    } else {
        assert(d.take(k) == d);
    }
}

/// Reads a decimal number as `str::parse::<usize>` does.
pub fn parse_usize(s: &str) -> (r: Option<usize>)
    ensures
        match parsed_usize(s@) {
            Some(n) => r == Some(n as usize),
            None => r is None,
        },
{
    let c = chars_of(s);
    let start: usize = if c.len() > 0 && c[0] == '+' {
        1
    } else {
        0
    };
    let ghost d = if c@.len() > 0 && c@[0] == '+' {
        c@.drop_first()
    } else {
        c@
    };
    assert(d == c@.skip(start as int));
    if start == c.len() {
        return None;
    }
    let mut value: usize = 0;
    let mut i = start;
    while i < c.len()
        invariant
            start <= i <= c@.len(),
            c@ == s@,
            d == c@.skip(start as int),
            d == (if c@.len() > 0 && c@[0] == '+' {
                c@.drop_first()
            } else {
                c@
            }),
            all_digits(d.take(i - start)),
            value == digits_value(d.take(i - start)),
        decreases c@.len() - i,
    {
        let ch = c[i];
        let ghost pre = d.take(i - start);
        let ghost post = d.take(i - start + 1);
        assert(post.drop_last() == pre);
        assert(post.last() == ch);
        if !('0' <= ch && ch <= '9') {
            assert(!all_digits(d)) by {
                assert(d[i - start] == ch);
            }
            return None;
        }
        let digit = (ch as u32 - 48) as usize;
        assert(digit == ch as int - 48);
        match value.checked_mul(10) {
            None => {
                proof {
                    assert(all_digits(post));
                    if all_digits(d) {
                        lemma_digits_value_monotone(d, i - start + 1);
                    }
                }
                return None;
            },
            Some(m) => match m.checked_add(digit) {
                None => {
                    proof {
                        assert(all_digits(post));
                        if all_digits(d) {
                            lemma_digits_value_monotone(d, i - start + 1);
                        }
                    }
                    return None;
                },
                Some(v) => {
                    value = v;
                },
            },
        }
        i = i + 1;
    }
    assert(d.take(c@.len() - start) == d);
    Some(value)
}

/// The error of an invalid menu choice.
#[derive(Debug, PartialEq)]
pub enum InteractionError {
    InvalidOption(String),
}

impl InteractionError {
    /// The text shown to the player.
    pub fn message(&self) -> (r: String)
        ensures
            r@ == (match self {
                InteractionError::InvalidOption(o) => "\""@ + o@ + "\" is not a valid option."@,
            }),
    {
        match self {
            InteractionError::InvalidOption(o) => {
                let mut v = chars_of("\"");
                append_str(&mut v, o.as_str());
                append_str(&mut v, "\" is not a valid option.");
                string_of(v.as_slice())
            },
        }
    }
}

/// What a menu choice does; after any valid choice the player leaves the menu.
#[derive(Debug, PartialEq)]
pub enum MenuAction {
    /// The player sits on the thing, as if they had typed the command.
    Sit(String),
    /// The player takes the thing, as if they had typed the command.
    Take(String),
    /// The interaction has no effect from a menu.
    Nothing,
}

/// The action of choosing the `n`-th offered interaction (from 1).
pub open spec fn menu_choice(
    choice: Seq<char>,
    interactions: Seq<Interaction>,
) -> Result<Option<Interaction>, Seq<char>> {
    match parsed_usize(choice) {
        None => Err(choice),
        Some(n) => if n == 0 || n > usable(interactions).len() {
            Err(decimal(n))
        } else {
            Ok(Some(usable(interactions)[n - 1]))
        },
    }
}

/// Performs the interaction chosen in the menu of the thing named `name`.
/// A choice that is not a number, or not the number of an offered
/// interaction, is refused with the choice as given (for a number, as read).
pub fn execute_interaction(option: &str, interactions: &[Interaction], name: &str) -> (r: Result<
    MenuAction,
    InteractionError,
>)
    ensures
        match menu_choice(option@, interactions@) {
            Err(text) => r matches Err(InteractionError::InvalidOption(t)) && t@ == text,
            Ok(chosen) => match chosen {
                Some(Interaction::Sit) => r matches Ok(MenuAction::Sit(n)) && n@ == name@,
                Some(Interaction::Take) => r matches Ok(MenuAction::Take(n)) && n@ == name@,
                _ => r == Ok::<MenuAction, InteractionError>(MenuAction::Nothing),
            },
        },
{
    let n = match parse_usize(option) {
        None => {
            return Err(InteractionError::InvalidOption(String::from_str(option)));
        },
        Some(n) => n,
    };
    let mut offered: Vec<Interaction> = Vec::new();
    let mut i: usize = 0;
    while i < interactions.len()
        invariant
            i <= interactions@.len(),
            offered@ == usable(interactions@.take(i as int)),
        decreases interactions@.len() - i,
    {
        let ghost pre = interactions@.take(i as int);
        assert(interactions@.take(i + 1).drop_last() == pre);
        if interactions[i].usable_in_menu() {
            offered.push(interactions[i]);
        }
        i = i + 1;
    }
    assert(interactions@.take(interactions@.len() as int) == interactions@);
    if n == 0 || n > offered.len() {
        let text = decimal_chars(n as u64);
        return Err(InteractionError::InvalidOption(string_of(text.as_slice())));
    }
    match offered[n - 1] {
        Interaction::Sit => Ok(MenuAction::Sit(String::from_str(name))),
        Interaction::Take => Ok(MenuAction::Take(String::from_str(name))),
        _ => Ok(MenuAction::Nothing),
    }
}

} // verus!
