//! The combat log: the entries that scripts write, and the lines that the
//! target of an action reads.
use vstd::prelude::*;

use crate::text::{append_chars, append_str, decimal, decimal_chars, string_of};

verus! {

broadcast use vstd::string::group_string_axioms;

/// What `inflector::cases::titlecase::to_title_case` returns for a text.
pub uninterp spec fn title_case_of(s: Seq<char>) -> Seq<char>;

/// `inflector::cases::titlecase::to_title_case`: the text as words that each
/// begin with a capital, separated by spaces ("fire_damage" reads "Fire
/// Damage"); its rules for splitting words are the crate's own.
#[verifier::external_body]
fn title_case(s: &str) -> (r: String)
    ensures
        r@ == title_case_of(s@),
{
    inflector::cases::titlecase::to_title_case(s)
}

/// An entry of the combat log.
#[derive(Clone, Debug, PartialEq)]
pub enum CombatLogKind {
    Used { message: String },
    Missed { message: String },
    Dodged { message: String },
    Blocked { message: String, damage: Option<u32> },
    Damaged { message: String, damage: u32, kind: String, crit: bool },
    ConditionApplied { message: String, condition: String },
    ConditionRemoved { message: String, condition: String },
}

/// An entry of the combat log, with who acted and who is told.
pub struct CombatLog {
    pub source: u64,
    pub target: u64,
    pub kind: CombatLogKind,
}

/// How the name of the one who acted is shown: a player's in the player
/// colour, another's by its depiction in the hostile colour.
pub open spec fn actor_markup(character: Option<Seq<char>>, depiction: Option<Seq<char>>) -> Seq<
    char,
> {
    match character {
        Some(c) => "<fg.player>"@ + c + "</>"@,
        None => match depiction {
            Some(d) => "<fg.hostile>"@ + d + "</>"@,
            None => "Unknown"@,
        },
    }
}

/// An optional string as characters.
pub open spec fn opt_chars(s: Option<&str>) -> Option<Seq<char>> {
    match s {
        Some(x) => Some(x@),
        None => None,
    }
}

/// How the name of the one who acted is shown.
pub fn actor_name(character: Option<&str>, depiction: Option<&str>) -> (r: String)
    ensures
        r@ == actor_markup(opt_chars(character), opt_chars(depiction)),
{
    match character {
        Some(c) => {
            let mut t = String::from_str("<fg.player>");
            t.append(c);
            t.append("</>");
            t
        },
        None => match depiction {
            Some(d) => {
                let mut t = String::from_str("<fg.hostile>");
                t.append(d);
                t.append("</>");
                t
            },
            None => String::from_str("Unknown"),
        },
    }
}

/// The line that the target reads for an entry, behind the name of the one
/// who acted: a marker of what happened (`/` a miss, `~` an avoided blow,
/// the damage in red, a condition in yellow), then the script's message.
pub open spec fn log_line(name: Seq<char>, kind: CombatLogKind) -> Seq<char> {
    match kind {
        CombatLogKind::Used { message } => "<"@ + name + "> "@ + message@,
        CombatLogKind::Missed { message } => "<"@ + name + " /> "@ + message@,
        CombatLogKind::Dodged { message } => "<"@ + name + " ~> "@ + message@,
        CombatLogKind::Blocked { message, damage } => match damage {
            Some(d) => "<"@ + name + " <fg.red>"@ + decimal(d as nat) + "d</> ~> "@ + message@,
            None => "<"@ + name + " ~> "@ + message@,
        },
        CombatLogKind::Damaged { message, damage, kind, crit } => "<"@ + name + " <fg.red>"@
            + decimal(damage as nat) + "d</>"@ + (if crit {
            "!"@
        } else {
            ""@
        }) + ", <fg.yellow>"@ + title_case_of(kind@) + "</>> "@ + message@,
        CombatLogKind::ConditionApplied { message, condition } => "<"@ + name + " <fg.yellow>+"@
            + condition@ + "+</>> "@ + message@,
        CombatLogKind::ConditionRemoved { message, condition } => "<"@ + name + " <fg.yellow>-"@
            + condition@ + "-</>> "@ + message@,
    }
}

/// The line that the target of an entry reads.
pub fn log_text(name: &str, kind: &CombatLogKind) -> (r: String)
    ensures
        r@ == log_line(name@, *kind),
{
    let mut v: Vec<char> = Vec::new();
    append_str(&mut v, "<");
    append_str(&mut v, name);
    match kind {
        CombatLogKind::Used { message } => {
            append_str(&mut v, "> ");
            append_str(&mut v, message.as_str());
        },
        CombatLogKind::Missed { message } => {
            append_str(&mut v, " /> ");
            append_str(&mut v, message.as_str());
        },
        CombatLogKind::Dodged { message } => {
            append_str(&mut v, " ~> ");
            append_str(&mut v, message.as_str());
        },
        CombatLogKind::Blocked { message, damage } => {
            match damage {
                Some(d) => {
                    append_str(&mut v, " <fg.red>");
                    let digits = decimal_chars(*d as u64);
                    append_chars(&mut v, digits.as_slice());
                    append_str(&mut v, "d</> ~> ");
                },
                None => {
                    append_str(&mut v, " ~> ");
                },
            }
            append_str(&mut v, message.as_str());
        },
        CombatLogKind::Damaged { message, damage, kind, crit } => {
            append_str(&mut v, " <fg.red>");
            let digits = decimal_chars(*damage as u64);
            append_chars(&mut v, digits.as_slice());
            append_str(&mut v, "d</>");
            if *crit {
                append_str(&mut v, "!");
            } else {
                append_str(&mut v, "");
            }
            append_str(&mut v, ", <fg.yellow>");
            let titled = title_case(kind.as_str());
            append_str(&mut v, titled.as_str());
            append_str(&mut v, "</>> ");
            append_str(&mut v, message.as_str());
        },
        CombatLogKind::ConditionApplied { message, condition } => {
            append_str(&mut v, " <fg.yellow>+");
            append_str(&mut v, condition.as_str());
            append_str(&mut v, "+</>> ");
            append_str(&mut v, message.as_str());
        },
        CombatLogKind::ConditionRemoved { message, condition } => {
            append_str(&mut v, " <fg.yellow>-");
            append_str(&mut v, condition.as_str());
            append_str(&mut v, "-</>> ");
            append_str(&mut v, message.as_str());
        },
    }
    string_of(v.as_slice())
}

/// The line that the target of an entry reads, behind the name of the one
/// who acted: a player's character, else its depiction, else "Unknown".
pub fn on_combat_event_combat_log(
    character: Option<&str>,
    depiction: Option<&str>,
    kind: &CombatLogKind,
) -> (r: String)
    ensures
        r@ == log_line(actor_markup(opt_chars(character), opt_chars(depiction)), *kind),
{
    let name = actor_name(character, depiction);
    log_text(name.as_str(), kind)
}

// ---------------------------------------------------------------------------
// What a script asks to log.
// ---------------------------------------------------------------------------

/// One part of a script's request: not given, given but unreadable (a field
/// it must have is missing or of the wrong type), or given.
pub enum LogField<T> {
    Absent,
    Unreadable,
    Given(T),
}

/// A blocked blow as a script describes it.
pub struct BlockedArgs {
    pub message: String,
    pub damage: Option<u32>,
}

/// A damaging blow as a script describes it.
pub struct DamagedArgs {
    pub message: String,
    pub damage: i32,
    pub kind: String,
    pub crit: bool,
}

/// A condition as a script describes it.
pub struct ConditionArgs {
    pub message: String,
    pub condition: String,
}

/// A script's request to log, by the parts it may give.
pub struct CombatLogArgs {
    pub used: LogField<String>,
    pub missed: LogField<String>,
    pub dodged: LogField<String>,
    pub blocked: LogField<BlockedArgs>,
    pub damaged: LogField<DamagedArgs>,
    pub condition_applied: LogField<ConditionArgs>,
    pub condition_removed: LogField<ConditionArgs>,
}

/// A part of a request turned into an entry.
pub open spec fn field_entry<T>(f: LogField<T>, entry: spec_fn(T) -> CombatLogKind) -> LogField<
    CombatLogKind,
> {
    match f {
        LogField::Absent => LogField::Absent,
        LogField::Unreadable => LogField::Unreadable,
        LogField::Given(t) => LogField::Given(entry(t)),
    }
}

/// The entry for a damaging blow; a negative damage wraps around, as a
/// conversion of the script's integer to an unsigned one does.
pub open spec fn damaged_entry(d: DamagedArgs) -> CombatLogKind {
    CombatLogKind::Damaged {
        message: d.message,
        damage: d.damage as u32,
        kind: d.kind,
        crit: d.crit,
    }
}

/// The parts of a request, in the order in which they are logged.
pub open spec fn request_entries(a: CombatLogArgs) -> Seq<LogField<CombatLogKind>> {
    seq![
        field_entry(a.used, |m: String| CombatLogKind::Used { message: m }),
        field_entry(a.missed, |m: String| CombatLogKind::Missed { message: m }),
        field_entry(a.dodged, |m: String| CombatLogKind::Dodged { message: m }),
        field_entry(
            a.blocked,
            |b: BlockedArgs| CombatLogKind::Blocked { message: b.message, damage: b.damage },
        ),
        field_entry(a.damaged, |d: DamagedArgs| damaged_entry(d)),
        field_entry(
            a.condition_applied,
            |c: ConditionArgs|
                CombatLogKind::ConditionApplied { message: c.message, condition: c.condition },
        ),
        field_entry(
            a.condition_removed,
            |c: ConditionArgs|
                CombatLogKind::ConditionRemoved { message: c.message, condition: c.condition },
        ),
    ]
}

/// The entries logged from the parts, after `logs` were logged: the given
/// parts up to the first unreadable one, where the script fails; and whether
/// all were read.
pub open spec fn gather_from(
    logs: Seq<CombatLogKind>,
    ok: bool,
    parts: Seq<LogField<CombatLogKind>>,
) -> (Seq<CombatLogKind>, bool)
    decreases parts.len(),
{
    if parts.len() == 0 || !ok {
        (logs, ok)
    } else {
        match parts[0] {
            LogField::Absent => gather_from(logs, ok, parts.drop_first()),
            LogField::Unreadable => (logs, false),
            LogField::Given(k) => gather_from(logs.push(k), ok, parts.drop_first()),
        }
    }
}

/// The entries logged from the parts of a request, in order, and whether
/// all the given parts could be read.
pub open spec fn gathered(parts: Seq<LogField<CombatLogKind>>) -> (Seq<CombatLogKind>, bool) {
    gather_from(seq![], true, parts)
}

/// The kinds of the entries.
pub open spec fn log_kinds(logs: Seq<CombatLog>) -> Seq<CombatLogKind> {
    logs.map_values(|l: CombatLog| l.kind)
}

/// A copy of an entry.
fn copy_kind(k: &CombatLogKind) -> (r: CombatLogKind)
    ensures
        r == *k,
{
    match k {
        CombatLogKind::Used { message } => CombatLogKind::Used { message: message.clone() },
        CombatLogKind::Missed { message } => CombatLogKind::Missed { message: message.clone() },
        CombatLogKind::Dodged { message } => CombatLogKind::Dodged { message: message.clone() },
        CombatLogKind::Blocked { message, damage } => CombatLogKind::Blocked {
            message: message.clone(),
            damage: *damage,
        },
        CombatLogKind::Damaged { message, damage, kind, crit } => CombatLogKind::Damaged {
            message: message.clone(),
            damage: *damage,
            kind: kind.clone(),
            crit: *crit,
        },
        CombatLogKind::ConditionApplied { message, condition } => CombatLogKind::ConditionApplied {
            message: message.clone(),
            condition: condition.clone(),
        },
        CombatLogKind::ConditionRemoved { message, condition } => CombatLogKind::ConditionRemoved {
            message: message.clone(),
            condition: condition.clone(),
        },
    }
}

/// The entries that a script's request to log adds, with who acted and who is
/// told, and whether every part that was given could be read. The parts are
/// logged in a fixed order; the first unreadable one ends the request, and
/// what was logged before it stays.
pub fn combat_log_actions(source: u64, target: u64, args: CombatLogArgs) -> (r: (
    Vec<CombatLog>,
    bool,
))
    ensures
        (log_kinds(r.0@), r.1) == gathered(request_entries(args)),
        forall|i: int|
            0 <= i < r.0@.len() ==> (#[trigger] r.0@[i]).source == source && r.0@[i].target
                == target,
{
    let ghost entries = request_entries(args);
    let CombatLogArgs {
        used,
        missed,
        dodged,
        blocked,
        damaged,
        condition_applied,
        condition_removed,
    } = args;
    let p0 = match used {
        LogField::Absent => LogField::Absent,
        LogField::Unreadable => LogField::Unreadable,
        LogField::Given(m) => LogField::Given(CombatLogKind::Used { message: m }),
    };
    let p1 = match missed {
        LogField::Absent => LogField::Absent,
        LogField::Unreadable => LogField::Unreadable,
        LogField::Given(m) => LogField::Given(CombatLogKind::Missed { message: m }),
    };
    let p2 = match dodged {
        LogField::Absent => LogField::Absent,
        LogField::Unreadable => LogField::Unreadable,
        LogField::Given(m) => LogField::Given(CombatLogKind::Dodged { message: m }),
    };
    let p3 = match blocked {
        LogField::Absent => LogField::Absent,
        LogField::Unreadable => LogField::Unreadable,
        LogField::Given(b) => LogField::Given(
            CombatLogKind::Blocked { message: b.message, damage: b.damage },
        ),
    };
    let p4 = match damaged {
        LogField::Absent => LogField::Absent,
        LogField::Unreadable => LogField::Unreadable,
        LogField::Given(d) => LogField::Given(
            CombatLogKind::Damaged {
                message: d.message,
                damage: #[verifier::truncate] (d.damage as u32),
                kind: d.kind,
                crit: d.crit,
            },
        ),
    };
    let p5 = match condition_applied {
        LogField::Absent => LogField::Absent,
        LogField::Unreadable => LogField::Unreadable,
        LogField::Given(c) => LogField::Given(
            CombatLogKind::ConditionApplied { message: c.message, condition: c.condition },
        ),
    };
    let p6 = match condition_removed {
        LogField::Absent => LogField::Absent,
        LogField::Unreadable => LogField::Unreadable,
        LogField::Given(c) => LogField::Given(
            CombatLogKind::ConditionRemoved { message: c.message, condition: c.condition },
        ),
    };
    let parts: Vec<LogField<CombatLogKind>> = vec![p0, p1, p2, p3, p4, p5, p6];
    assert(parts@ =~= entries);
    let mut logs: Vec<CombatLog> = Vec::new();
    let mut ok = true;
    let mut i: usize = 0;
    assert(entries.skip(0) == entries);
    assert(log_kinds(logs@) =~= Seq::<CombatLogKind>::empty());
    while i < parts.len()
        invariant
            i <= parts@.len(),
            parts@ == entries,
            gather_from(log_kinds(logs@), ok, entries.skip(i as int)) == gathered(entries),
            forall|k: int|
                0 <= k < logs@.len() ==> (#[trigger] logs@[k]).source == source && logs@[k].target
                    == target,
        decreases parts@.len() - i,
    {
        let ghost before = log_kinds(logs@);
        proof {
            assert(entries.skip(i as int)[0] == entries[i as int]);
            assert(entries.skip(i as int).drop_first() == entries.skip(i + 1));
        }
        if ok {
            match &parts[i] {
                LogField::Absent => {},
                LogField::Unreadable => {
                    ok = false;
                },
                LogField::Given(kind) => {
                    logs.push(CombatLog { source, target, kind: copy_kind(kind) });
                    assert(log_kinds(logs@) =~= before.push(*kind));
                },
            }
        }
        proof {
            if !ok {
                assert(gather_from(log_kinds(logs@), ok, entries.skip(i + 1)) == (
                    log_kinds(logs@),
                    ok,
                ));
            }
        }
        i = i + 1;
    }
    assert(entries.skip(i as int).len() == 0);
    (logs, ok)
}

} // verus!
