//! Spawners that keep a tile stocked with hostile characters.
use rand::Rng;
use vstd::prelude::*;

verus! {

/// `rand::Rng::gen_range` on `rand::thread_rng()` over the inclusive range
/// from `low` to `high`: a number drawn at random from it. The crate panics
/// on an empty range, which the precondition leaves out.
#[verifier::external_body]
fn random_in_range(low: u16, high: u16) -> (r: u16)
    requires
        low <= high,
    ensures
        low <= r <= high,
{
    rand::thread_rng().gen_range(low..=high)
}

/// A spawner: the prototype it spawns, how few and how many it spawns at a
/// time, the characters it has spawned, and whether it made its first spawn.
pub struct HostileSpawner {
    pub hostiles: (String, u16, u16),
    pub spawned: Vec<u64>,
    pub initial_spawn: bool,
}

/// How many hostiles a spawner spawns now: none once it has spawned as many
/// as its maximum, else a number drawn between its minimum and maximum.
pub fn spawn_amount(spawner: &HostileSpawner) -> (r: Option<u16>)
    requires
        spawner.spawned@.len() < spawner.hostiles.2 ==> spawner.hostiles.1 <= spawner.hostiles.2,
    ensures
        spawner.spawned@.len() >= spawner.hostiles.2 ==> r is None,
        spawner.spawned@.len() < spawner.hostiles.2 ==> (r matches Some(n) && spawner.hostiles.1
            <= n <= spawner.hostiles.2),
{
    if spawner.spawned.len() >= spawner.hostiles.2 as usize {
        None
    } else {
        Some(random_in_range(spawner.hostiles.1, spawner.hostiles.2))
    }
}

/// What a spawner's timer calls for.
#[derive(Clone, Copy, Debug, PartialEq, Eq, Structural)]
pub enum TimerCall {
    /// The timer ran out: the spawner spawns again.
    Spawn,
    /// A spawner without a timer whose hostiles are all gone starts one.
    StartTimer,
    Nothing,
}

/// After its first spawn, a spawner with a timer spawns again when the timer
/// runs out; one without a timer starts it once nothing it spawned is left.
pub fn timer_call(has_timer: bool, timer_finished: bool, spawned_empty: bool) -> (r: TimerCall)
    ensures
        r == if has_timer {
            if timer_finished {
                TimerCall::Spawn
            } else {
                TimerCall::Nothing
            }
        } else if spawned_empty {
            TimerCall::StartTimer
        } else {
            TimerCall::Nothing
        },
{
    if has_timer {
        if timer_finished {
            TimerCall::Spawn
        } else {
            TimerCall::Nothing
        }
    } else if spawned_empty {
        TimerCall::StartTimer
    } else {
        TimerCall::Nothing
    }
}

} // verus!
