# kindara

The rules of Kindara, a text-based multi-user fantasy game server, as a
library verified with Verus: every public function states what it returns in
its contract, and Verus proves the code against it.

## Layout

- `src/text.rs`, `src/search.rs`: characters and strings, and the first
  element of a sequence with a property.
- `src/command.rs`, `src/parse.rs`: the commands a player types, and the
  grammar by which each line is read.
- `src/depiction.rs`, `src/interact.rs`, `src/items.rs`, `src/phrase.rs`:
  naming things, examining them and choosing from their menus, taking,
  dropping and placing items, and lists of names as players read them.
- `src/auth.rs`, `src/world.rs`, `src/session.rs`, `src/keycard.rs`,
  `src/models.rs`: signing in, what the world keeps of a character between
  sessions, the greeting and leaving, and permissions.
- `src/combat.rs`, `src/combat_log.rs`, `src/scripts.rs`, `src/rolls.rs`,
  `src/npc.rs`: skills and targets, the steps of an attack, damage and
  recovery, the combat log, the scripts that run, dice, and spawners.
- `app/`: a console front end for one player, and the floating-point parts
  of combat.
- `tests/`: the scenarios, run against the compiled library.

Where the library calls an outside crate (`censor`, `bcrypt`, `inflector`,
`indefinite`, `caith`, `rand`), the call stands in a small trusted function
whose contract says what the crate's source shows of it.

## What the crate does not hold

- The grammars of the movement, looking, social, channel and session
  commands (`advance`, `announce`, `chat`, `novice`, `close`, `config`,
  `describe`, `emote`, `enter`, `look`, `map`, the directions, `open`, `say`,
  `scan`, `sit`, `stand`, `time`, `who`, `yell`) are not part of this crate.
  `parse::parse_command` keeps their place in the order in which readers are
  tried, so that they still take their lines ahead of the skills, but it
  answers every line they claim with `ParseError::UnknownCommand`.
- The Lua scripting layer (evaluating scripts and the functions they call
  back), the entity-component plumbing that schedules the game's systems,
  and the database are not in the crate. `scripts::scripts_to_run` decides
  which scripts run; `combat::apply_damage` takes the damage events that the
  scripts raised, already resolved to plain values.
- The console front end in `app/` covers signing in, the item commands and
  rolling dice; it has no combat loop.
