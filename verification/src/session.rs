//! A connection's life outside of sign-in: the greeting, leaving, and what
//! is kept of a character when its client disconnects.
use vstd::prelude::*;

use crate::auth::{DO, GMCP, IAC, NAWS, WILL};
use crate::world::{WorldStateCharacter, record_character, recorded, saved_view, saved_views};

verus! {

broadcast use vstd::string::group_string_axioms;

/// What a new connection is sent.
pub struct Greeting {
    /// The telnet commands, in order.
    pub commands: Vec<Vec<u8>>,
    pub text: String,
}

/// A new connection is offered GMCP, asked for its window size, and asked
/// for a name.
pub fn connection_greeting() -> (r: Greeting)
    ensures
        r.commands@.len() == 2,
        r.commands@[0]@ == seq![IAC, WILL, GMCP],
        r.commands@[1]@ == seq![IAC, DO, NAWS],
        r.text@ == "Thou hast arrived in Kindara, wanderer. What name dost thou bear?"@,
{
    let mut commands: Vec<Vec<u8>> = Vec::new();
    commands.push(vec![IAC, WILL, GMCP]);
    commands.push(vec![IAC, DO, NAWS]);
    Greeting {
        commands,
        text: String::from_str("Thou hast arrived in Kindara, wanderer. What name dost thou bear?"),
    }
}

/// What the quit command does.
#[derive(Debug, PartialEq)]
pub enum QuitOutcome {
    /// The player leaves the menu it is in.
    LeaveMenu,
    /// The player is sent this text and disconnected.
    Farewell(String),
}

/// In a menu, quitting leaves the menu; elsewhere it ends the session.
pub fn quit(in_menu: bool) -> (r: QuitOutcome)
    ensures
        in_menu ==> r == QuitOutcome::LeaveMenu,
        !in_menu ==> (r matches QuitOutcome::Farewell(t) && t@ == "Farewell."@),
{
    if in_menu {
        QuitOutcome::LeaveMenu
    } else {
        QuitOutcome::Farewell(String::from_str("Farewell."))
    }
}

/// When a character's client disconnects, its tile and the items in its
/// inventory are recorded in the world's state, which is then saved, and the
/// character leaves the world. Without a tile name or an inventory nothing
/// happens; the answer says whether the state was recorded.
pub fn record_departure(
    world: &mut Vec<WorldStateCharacter>,
    id: i64,
    tile: Option<String>,
    inventory: Option<Vec<String>>,
) -> (r: bool)
    ensures
        r == (tile is Some && inventory is Some),
        r ==> (tile matches Some(t) && inventory matches Some(items) && saved_views(final(world)@)
            == recorded(
            saved_views(old(world)@),
            saved_view(WorldStateCharacter { id, tile: t, inventory: items }),
        )),
        !r ==> final(world)@ == old(world)@,
{
    match (tile, inventory) {
        (Some(t), Some(items)) => {
            record_character(world, WorldStateCharacter { id, tile: t, inventory: items });
            true
        },
        _ => false,
    }
}

/// How a roll of the dice turned out.
pub enum RollOutcome {
    /// The dice could not be read.
    InvalidSyntax,
    /// Rolling failed.
    Failed,
    /// The dice were rolled, with this result as the dice crate writes it.
    Rolled(String),
}

/// What the roll command sends: the roll and its result to every player on
/// the tile (the first part of the answer says so), or an error to the one
/// who rolled.
pub fn roll(name: &str, dice: &str, outcome: &RollOutcome) -> (r: (bool, String))
    ensures
        match outcome {
            RollOutcome::InvalidSyntax => !r.0 && r.1@ == "Invalid roll syntax."@,
            RollOutcome::Failed => !r.0 && r.1@ == "Roll failed."@,
            RollOutcome::Rolled(result) => r.0 && r.1@ == name@ + " rolled "@ + dice@
                + " with a result of "@ + result@ + "."@,
        },
{
    match outcome {
        RollOutcome::InvalidSyntax => (false, String::from_str("Invalid roll syntax.")),
        RollOutcome::Failed => (false, String::from_str("Roll failed.")),
        RollOutcome::Rolled(result) => {
            let mut t = String::from_str(name);
            t.append(" rolled ");
            t.append(dice);
            t.append(" with a result of ");
            t.append(result.as_str());
            t.append(".");
            (true, t)
        },
    }
}

} // verus!
