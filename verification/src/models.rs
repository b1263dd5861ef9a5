//! What is stored of a character.
use vstd::prelude::*;

use crate::keycard::{Keycard, ADMIN, PLAYER};

verus! {

/// The role a character has on the server.
#[derive(Clone, Copy, Debug, PartialEq, Eq, Structural)]
pub enum Role {
    Admin,
    Player,
}

/// The keycard that a character of this role carries.
pub fn keycard_for(role: Role) -> (k: Keycard)
    ensures
        k@ == (match role {
            Role::Admin => ADMIN,
            Role::Player => PLAYER,
        }),
{
    match role {
        Role::Admin => Keycard::admin(),
        Role::Player => Keycard::player(),
    }
}

} // verus!
