//! Permissions carried by a connected character.
use vstd::prelude::*;

verus! {

/// May shut the server down.
pub const SHUTDOWN: u32 = 4;

/// May announce to every player.
pub const ANNOUNCE: u32 = 8;

/// May teleport.
pub const TELEPORT: u32 = 16;

/// The permissions of a player: none.
pub const PLAYER: u32 = 0;

/// The permissions of an administrator: all of them.
pub const ADMIN: u32 = 28;

/// A set of permissions, one bit each.
pub struct Keycard {
    permissions: u32,
}

impl View for Keycard {
    type V = u32;

    closed spec fn view(&self) -> u32 {
        self.permissions
    }
}

/// Whether a set of permission bits holds every bit of `permission`.
pub open spec fn grants(permissions: u32, permission: u32) -> bool {
    permissions & permission == permission
}

impl Keycard {
    /// The keycard of an administrator.
    pub fn admin() -> (k: Self)
        ensures
            k@ == ADMIN,
    {
        Self { permissions: ADMIN }
    }

    /// The keycard of a player.
    pub fn player() -> (k: Self)
        ensures
            k@ == PLAYER,
    {
        Self { permissions: PLAYER }
    }

    /// Whether the keycard holds every permission in `permission`.
    pub fn can(&self, permission: u32) -> (r: bool)
        ensures
            r == grants(self@, permission),
    {
        (self.permissions & permission) == permission
    }
}

/// An administrator may do everything there is a permission for, and
/// nothing else; `ADMIN` is the union of the three permissions.
pub proof fn lemma_admin_grants(permission: u32)
    ensures
        grants(ADMIN, permission) <==> permission & !ADMIN == 0,
        grants(ADMIN, SHUTDOWN),
        grants(ADMIN, ANNOUNCE),
        grants(ADMIN, TELEPORT),
        ADMIN == SHUTDOWN | ANNOUNCE | TELEPORT,
{
    assert(grants(28, permission) <==> permission & !28u32 == 0) by (bit_vector);
    assert(28u32 & 4 == 4 && 28u32 & 8 == 8 && 28u32 & 16 == 16) by (bit_vector);
    assert(28u32 == 4u32 | 8 | 16) by (bit_vector);
}

/// A player holds no permission: only the empty request is granted.
pub proof fn lemma_player_grants(permission: u32)
    ensures
        grants(PLAYER, permission) <==> permission == 0,
{
    assert(0u32 & permission == permission <==> permission == 0) by (bit_vector);
}

/// Asking for two permissions at once is asking for each of them.
pub proof fn lemma_grants_union(permissions: u32, a: u32, b: u32)
    ensures
        grants(permissions, a | b) <==> grants(permissions, a) && grants(permissions, b),
        grants(permissions, 0),
{
    assert(permissions & (a | b) == (a | b) <==> (permissions & a == a && permissions & b == b))
        by (bit_vector);
    assert(permissions & 0 == 0) by (bit_vector);
}

} // verus!
