//! Combat: the skills a character knows, choosing a target, the commands
//! that start and steer a fight, and the steps an attack goes through.
use vstd::prelude::*;

use crate::depiction::Depiction;
use crate::interact::Interaction;
use crate::phrase::sviews;
use crate::search::{first_satisfying, lemma_first_satisfying, lemma_first_satisfying_at};
use crate::text::{append_chars, append_str, chars_of, decimal, decimal_chars, string_of};

verus! {

broadcast use vstd::string::group_string_axioms;

// ---------------------------------------------------------------------------
// The vocabulary of combat.
// ---------------------------------------------------------------------------

/// How far two fighters stand from each other.
#[derive(Clone, Copy, Debug, PartialEq, Eq, Structural)]
pub enum Distance {
    Near,
    Far,
    /// For a skill: usable at either distance.
    Either,
}

/// The name of a distance.
pub open spec fn distance_name(d: Distance) -> Seq<char> {
    match d {
        Distance::Near => "near"@,
        Distance::Far => "far"@,
        Distance::Either => "either"@,
    }
}

impl Distance {
    /// The name of the distance.
    pub fn name(&self) -> (r: String)
        ensures
            r@ == distance_name(*self),
    {
        match self {
            Distance::Near => String::from_str("near"),
            Distance::Far => String::from_str("far"),
            Distance::Either => String::from_str("either"),
        }
    }
}

/// From which side a fighter attacks.
#[derive(Clone, Copy, Debug, PartialEq, Eq, Structural)]
pub enum Approach {
    Front,
    Rear,
}

/// The name of an approach.
pub open spec fn approach_name(a: Approach) -> Seq<char> {
    match a {
        Approach::Front => "front"@,
        Approach::Rear => "rear"@,
    }
}

impl Approach {
    /// The name of the approach.
    pub fn name(&self) -> (r: String)
        ensures
            r@ == approach_name(*self),
    {
        match self {
            Approach::Front => String::from_str("front"),
            Approach::Rear => String::from_str("rear"),
        }
    }
}

/// Whom a fighter fights, how far from it and from which side.
#[derive(Clone, Copy, Debug, PartialEq, Eq, Structural)]
pub struct CombatState {
    pub target: u64,
    pub distance: Distance,
    pub approach: Approach,
}

/// The moments at which the scripts of a skill or condition run.
#[derive(Clone, Copy, Debug, PartialEq, Eq, Structural)]
pub enum ExecutionPhase {
    OnInit,
    OnUse,
    OnMiss,
    OnDodge,
    OnBlock,
    OnHit,
    OnEnd,
}

/// The name of the script function that runs at a phase.
pub open spec fn phase_name(p: ExecutionPhase) -> Seq<char> {
    match p {
        ExecutionPhase::OnInit => "on_init"@,
        ExecutionPhase::OnUse => "on_use"@,
        ExecutionPhase::OnMiss => "on_miss"@,
        ExecutionPhase::OnDodge => "on_dodge"@,
        ExecutionPhase::OnBlock => "on_block"@,
        ExecutionPhase::OnHit => "on_hit"@,
        ExecutionPhase::OnEnd => "on_end"@,
    }
}

impl ExecutionPhase {
    /// The name of the script function that runs at this phase.
    pub fn name(&self) -> (r: String)
        ensures
            r@ == phase_name(*self),
    {
        match self {
            ExecutionPhase::OnInit => String::from_str("on_init"),
            ExecutionPhase::OnUse => String::from_str("on_use"),
            ExecutionPhase::OnMiss => String::from_str("on_miss"),
            ExecutionPhase::OnDodge => String::from_str("on_dodge"),
            ExecutionPhase::OnBlock => String::from_str("on_block"),
            ExecutionPhase::OnHit => String::from_str("on_hit"),
            ExecutionPhase::OnEnd => String::from_str("on_end"),
        }
    }
}

/// A statistic that a script can modify.
#[derive(Clone, Copy, Debug, PartialEq, Eq, Structural)]
pub enum Stat {
    Vitality,
    Stamina,
    Strength,
    Dexterity,
    Intelligence,
    Health,
    Vigor,
    VigorRegen,
    DodgeChance,
    DodgeRate,
    BlockChance,
    BlockRate,
    Fleet,
    AttackSpeed,
    Dominance,
    CritStrikeChance,
    CritStrikeDamage,
}

/// The name of a statistic, as scripts see it.
pub open spec fn stat_name(s: Stat) -> Seq<char> {
    match s {
        Stat::Vitality => "Vitality"@,
        Stat::Stamina => "Stamina"@,
        Stat::Strength => "Strength"@,
        Stat::Dexterity => "Dexterity"@,
        Stat::Intelligence => "Intelligence"@,
        Stat::Health => "Health"@,
        Stat::Vigor => "Vigor"@,
        Stat::VigorRegen => "VigorRegen"@,
        Stat::DodgeChance => "DodgeChance"@,
        Stat::DodgeRate => "DodgeRate"@,
        Stat::BlockChance => "BlockChance"@,
        Stat::BlockRate => "BlockRate"@,
        Stat::Fleet => "Fleet"@,
        Stat::AttackSpeed => "AttackSpeed"@,
        Stat::Dominance => "Dominance"@,
        Stat::CritStrikeChance => "CritStrikeChance"@,
        Stat::CritStrikeDamage => "CritStrikeDamage"@,
    }
}

/// Every statistic, in the order of its declaration.
pub open spec fn stat_order() -> Seq<Stat> {
    seq![
        Stat::Vitality,
        Stat::Stamina,
        Stat::Strength,
        Stat::Dexterity,
        Stat::Intelligence,
        Stat::Health,
        Stat::Vigor,
        Stat::VigorRegen,
        Stat::DodgeChance,
        Stat::DodgeRate,
        Stat::BlockChance,
        Stat::BlockRate,
        Stat::Fleet,
        Stat::AttackSpeed,
        Stat::Dominance,
        Stat::CritStrikeChance,
        Stat::CritStrikeDamage,
    ]
}

impl Stat {
    /// The name of the statistic.
    pub fn name(&self) -> (r: String)
        ensures
            r@ == stat_name(*self),
    {
        match self {
            Stat::Vitality => String::from_str("Vitality"),
            Stat::Stamina => String::from_str("Stamina"),
            Stat::Strength => String::from_str("Strength"),
            Stat::Dexterity => String::from_str("Dexterity"),
            Stat::Intelligence => String::from_str("Intelligence"),
            Stat::Health => String::from_str("Health"),
            Stat::Vigor => String::from_str("Vigor"),
            Stat::VigorRegen => String::from_str("VigorRegen"),
            Stat::DodgeChance => String::from_str("DodgeChance"),
            Stat::DodgeRate => String::from_str("DodgeRate"),
            Stat::BlockChance => String::from_str("BlockChance"),
            Stat::BlockRate => String::from_str("BlockRate"),
            Stat::Fleet => String::from_str("Fleet"),
            Stat::AttackSpeed => String::from_str("AttackSpeed"),
            Stat::Dominance => String::from_str("Dominance"),
            Stat::CritStrikeChance => String::from_str("CritStrikeChance"),
            Stat::CritStrikeDamage => String::from_str("CritStrikeDamage"),
        }
    }

    /// Every statistic, in the order of its declaration.
    pub fn all() -> (r: Vec<Stat>)
        ensures
            r@ == stat_order(),
    {
        let r = vec![
            Stat::Vitality,
            Stat::Stamina,
            Stat::Strength,
            Stat::Dexterity,
            Stat::Intelligence,
            Stat::Health,
            Stat::Vigor,
            Stat::VigorRegen,
            Stat::DodgeChance,
            Stat::DodgeRate,
            Stat::BlockChance,
            Stat::BlockRate,
            Stat::Fleet,
            Stat::AttackSpeed,
            Stat::Dominance,
            Stat::CritStrikeChance,
            Stat::CritStrikeDamage,
        ];
        assert(r@ =~= stat_order());
        r
    }
}

// ---------------------------------------------------------------------------
// Skills and masteries.
// ---------------------------------------------------------------------------

/// A skill: the words that invoke it, what it costs and how long before it
/// can be used again (in seconds), and the scripts that carry it out.
pub struct Skill {
    pub id: String,
    pub commands: Vec<String>,
    pub name: String,
    pub description: String,
    pub cost: u32,
    pub cooldown: u32,
    pub approach: Approach,
    pub distance: Distance,
    pub scripts: Vec<String>,
}

/// A mastery: the attributes it grants, its automatic attack and the skills
/// it teaches, by id.
pub struct Mastery {
    pub id: String,
    pub name: String,
    pub vitality: u32,
    pub stamina: u32,
    pub strength: u32,
    pub dexterity: u32,
    pub intelligence: u32,
    pub auto_attack: String,
    pub skills: Vec<String>,
}

/// The first skill that the word invokes.
pub open spec fn skill_invoked(skills: Seq<Skill>, word: Seq<char>) -> Option<int> {
    first_satisfying(skills, |s: Skill| sviews(s.commands@).contains(word))
}

/// The skill with this id.
pub open spec fn skill_with_id(skills: Seq<Skill>, id: Seq<char>) -> Option<int> {
    first_satisfying(skills, |s: Skill| s.id@ == id)
}

/// The mastery with this id.
pub open spec fn mastery_with_id(masteries: Seq<Mastery>, id: Seq<char>) -> Option<int> {
    first_satisfying(masteries, |m: Mastery| m.id@ == id)
}

/// The skill that a character of this mastery uses with the word: the first
/// skill that the word invokes, provided the mastery teaches it.
pub open spec fn known_skill(
    skills: Seq<Skill>,
    masteries: Seq<Mastery>,
    mastery: Seq<char>,
    word: Seq<char>,
) -> Option<int> {
    match skill_invoked(skills, word) {
        None => None,
        Some(k) => match mastery_with_id(masteries, mastery) {
            None => None,
            Some(m) => if sviews(masteries[m].skills@).contains(skills[k].id@) {
                Some(k)
            } else {
                None
            },
        },
    }
}

/// Why a skill cannot be used.
#[derive(Debug, PartialEq, Eq, Structural)]
pub enum SkillError {
    Unknown,
}

impl SkillError {
    /// What the player is told.
    pub fn message(&self) -> (r: String)
        ensures
            r@ == "You don't know how to do that."@,
    {
        String::from_str("You don't know how to do that.")
    }
}

/// Whether one of the strings has exactly the characters of `s`.
fn strings_contain(v: &Vec<String>, s: &str) -> (r: bool)
    ensures
        r == sviews(v@).contains(s@),
{
    let wanted = String::from_str(s);
    let mut i: usize = 0;
    while i < v.len()
        invariant
            i <= v@.len(),
            wanted@ == s@,
            forall|k: int| 0 <= k < i ==> #[trigger] v@[k]@ != s@,
        decreases v@.len() - i,
    {
        if v[i] == wanted {
            assert(sviews(v@)[i as int] == s@);
            return true;
        }
        i = i + 1;
    }
    assert(!sviews(v@).contains(s@)) by {
        if sviews(v@).contains(s@) {
            let k = choose|k: int| 0 <= k < sviews(v@).len() && sviews(v@)[k] == s@;
            assert(v@[k]@ == s@);
        }
    }
    false
}

/// Finds the skill that the word invokes.
fn find_invoked(skills: &[Skill], word: &str) -> (r: Option<usize>)
    ensures
        match r {
            Some(i) => skill_invoked(skills@, word@) == Some(i as int) && i < skills@.len(),
            None => skill_invoked(skills@, word@) is None,
        },
{
    let ghost p = |s: Skill| sviews(s.commands@).contains(word@);
    let mut i: usize = 0;
    while i < skills.len()
        invariant
            i <= skills@.len(),
            p == (|s: Skill| sviews(s.commands@).contains(word@)),
            forall|j: int| #![trigger skills@[j]] 0 <= j < i ==> !p(skills@[j]),
        decreases skills@.len() - i,
    {
        if strings_contain(&skills[i].commands, word) {
            proof {
                lemma_first_satisfying_at(skills@, p, i as int);
            }
            return Some(i);
        }
        i = i + 1;
    }
    proof {
        lemma_first_satisfying(skills@, p);
    }
    None
}

/// Finds the skill with this id.
pub fn find_skill(skills: &[Skill], id: &str) -> (r: Option<usize>)
    ensures
        match r {
            Some(i) => skill_with_id(skills@, id@) == Some(i as int) && i < skills@.len(),
            None => skill_with_id(skills@, id@) is None,
        },
{
    let ghost p = |s: Skill| s.id@ == id@;
    let wanted = String::from_str(id);
    let mut i: usize = 0;
    while i < skills.len()
        invariant
            i <= skills@.len(),
            wanted@ == id@,
            p == (|s: Skill| s.id@ == id@),
            forall|j: int| #![trigger skills@[j]] 0 <= j < i ==> !p(skills@[j]),
        decreases skills@.len() - i,
    {
        if skills[i].id == wanted {
            proof {
                lemma_first_satisfying_at(skills@, p, i as int);
            }
            return Some(i);
        }
        i = i + 1;
    }
    proof {
        lemma_first_satisfying(skills@, p);
    }
    None
}

/// Finds the mastery with this id.
pub fn find_mastery(masteries: &[Mastery], id: &str) -> (r: Option<usize>)
    ensures
        match r {
            Some(i) => mastery_with_id(masteries@, id@) == Some(i as int) && i < masteries@.len(),
            None => mastery_with_id(masteries@, id@) is None,
        },
{
    let ghost p = |m: Mastery| m.id@ == id@;
    let wanted = String::from_str(id);
    let mut i: usize = 0;
    while i < masteries.len()
        invariant
            i <= masteries@.len(),
            wanted@ == id@,
            p == (|m: Mastery| m.id@ == id@),
            forall|j: int| #![trigger masteries@[j]] 0 <= j < i ==> !p(masteries@[j]),
        decreases masteries@.len() - i,
    {
        if masteries[i].id == wanted {
            proof {
                lemma_first_satisfying_at(masteries@, p, i as int);
            }
            return Some(i);
        }
        i = i + 1;
    }
    proof {
        lemma_first_satisfying(masteries@, p);
    }
    None
}

/// The skill that a character of the mastery uses with the word: the first
/// skill that the word invokes, when the mastery teaches it.
pub fn get_skill(skills: &[Skill], masteries: &[Mastery], mastery: &str, word: &str) -> (r: Result<
    usize,
    SkillError,
>)
    ensures
        match r {
            Ok(k) => known_skill(skills@, masteries@, mastery@, word@) == Some(k as int) && k
                < skills@.len(),
            Err(e) => known_skill(skills@, masteries@, mastery@, word@) is None && e
                == SkillError::Unknown,
        },
{
    let k = match find_invoked(skills, word) {
        Some(k) => k,
        None => return Err(SkillError::Unknown),
    };
    let m = match find_mastery(masteries, mastery) {
        Some(m) => m,
        None => return Err(SkillError::Unknown),
    };
    if !strings_contain(&masteries[m].skills, skills[k].id.as_str()) {
        return Err(SkillError::Unknown);
    }
    Ok(k)
}

// ---------------------------------------------------------------------------
// Targets.
// ---------------------------------------------------------------------------

/// A non-player character on the tile, with what choosing a target needs.
pub struct NpcEntry {
    pub entity: u64,
    pub depiction: Depiction,
    pub interactions: Option<Vec<Interaction>>,
    /// Whether it has combat statistics.
    pub has_stats: bool,
}

/// Why a target cannot be attacked.
#[derive(Debug, PartialEq, Eq)]
pub enum TargetError {
    /// The player stands on no tile.
    NoTile,
    NotFound(String),
    Invalid(String),
}

/// Why a target cannot be attacked, as plain values.
pub enum TargetErrorView {
    NoTile,
    NotFound(Seq<char>),
    Invalid(Seq<char>),
}

/// A target error as plain values.
pub open spec fn target_error_view(e: TargetError) -> TargetErrorView {
    match e {
        TargetError::NoTile => TargetErrorView::NoTile,
        TargetError::NotFound(t) => TargetErrorView::NotFound(t@),
        TargetError::Invalid(t) => TargetErrorView::Invalid(t@),
    }
}

/// What the player is told of a target error.
pub open spec fn target_error_text(e: TargetErrorView) -> Seq<char> {
    match e {
        TargetErrorView::NoTile => "You don't see anything here."@,
        TargetErrorView::NotFound(t) => "You don't see a "@ + t + " here."@,
        TargetErrorView::Invalid(t) => "You can't attack the "@ + t + "."@,
    }
}

impl TargetError {
    /// What the player is told.
    pub fn message(&self) -> (r: String)
        ensures
            r@ == target_error_text(target_error_view(*self)),
    {
        match self {
            TargetError::NoTile => String::from_str("You don't see anything here."),
            TargetError::NotFound(t) => {
                let mut s = String::from_str("You don't see a ");
                s.append(t.as_str());
                s.append(" here.");
                s
            },
            TargetError::Invalid(t) => {
                let mut s = String::from_str("You can't attack the ");
                s.append(t.as_str());
                s.append(".");
                s
            },
        }
    }
}

/// Whether a character offers an interaction.
pub open spec fn npc_offers(n: NpcEntry, i: Interaction) -> bool {
    match n.interactions {
        Some(v) => v@.contains(i),
        None => false,
    }
}

/// The first character on the tile that the word names.
pub open spec fn npc_named(npcs: Seq<NpcEntry>, word: Seq<char>) -> Option<int> {
    first_satisfying(npcs, |n: NpcEntry| n.depiction.spec_matches(word))
}

/// Which character the word makes the target: the first one on the tile that
/// it names, if that one can be attacked and has combat statistics.
pub open spec fn target_verdict(word: Seq<char>, siblings: Option<Seq<NpcEntry>>) -> Result<
    u64,
    TargetErrorView,
> {
    match siblings {
        None => Err(TargetErrorView::NoTile),
        Some(npcs) => match npc_named(npcs, word) {
            None => Err(TargetErrorView::NotFound(word)),
            Some(i) => if npc_offers(npcs[i], Interaction::Attack) && npcs[i].has_stats {
                Ok(npcs[i].entity)
            } else {
                Err(TargetErrorView::Invalid(word))
            },
        },
    }
}

/// A target verdict with its error as plain values.
pub open spec fn target_result_view(r: Result<u64, TargetError>) -> Result<u64, TargetErrorView> {
    match r {
        Ok(e) => Ok(e),
        Err(e) => Err(target_error_view(e)),
    }
}

/// Whether a character offers an interaction.
fn npc_offers_exec(n: &NpcEntry, i: Interaction) -> (r: bool)
    ensures
        r == npc_offers(*n, i),
{
    match &n.interactions {
        None => false,
        Some(v) => {
            let mut k: usize = 0;
            while k < v.len()
                invariant
                    k <= v@.len(),
                    n.interactions matches Some(w) && w@ == v@,
                    forall|j: int| 0 <= j < k ==> #[trigger] v@[j] != i,
                decreases v@.len() - k,
            {
                if v[k] == i {
                    assert(v@[k as int] == i);
                    return true;
                }
                k = k + 1;
            }
            false
        },
    }
}

/// Chooses the target that the word names among the characters on the tile.
pub fn get_target(word: &str, siblings: Option<&[NpcEntry]>) -> (r: Result<u64, TargetError>)
    ensures
        target_result_view(r) == target_verdict(
            word@,
            match siblings {
                Some(s) => Some(s@),
                None => None,
            },
        ),
{
    let npcs = match siblings {
        None => return Err(TargetError::NoTile),
        Some(s) => s,
    };
    let ghost p = |n: NpcEntry| n.depiction.spec_matches(word@);
    let mut i: usize = 0;
    while i < npcs.len()
        invariant
            i <= npcs@.len(),
            siblings == Some(npcs),
            p == (|n: NpcEntry| n.depiction.spec_matches(word@)),
            forall|j: int| #![trigger npcs@[j]] 0 <= j < i ==> !p(npcs@[j]),
        decreases npcs@.len() - i,
    {
        if npcs[i].depiction.matches_query(word) {
            proof {
                lemma_first_satisfying_at(npcs@, p, i as int);
            }
            if !npc_offers_exec(&npcs[i], Interaction::Attack) || !npcs[i].has_stats {
                return Err(TargetError::Invalid(String::from_str(word)));
            }
            return Ok(npcs[i].entity);
        }
        i = i + 1;
    }
    proof {
        lemma_first_satisfying(npcs@, p);
    }
    Err(TargetError::NotFound(String::from_str(word)))
}

// ---------------------------------------------------------------------------
// Using a skill.
// ---------------------------------------------------------------------------

/// A cooldown that runs for a skill, with the whole seconds left of it.
pub struct Cooldown {
    pub skill: String,
    pub remaining_secs: u64,
}

/// The cooldown that runs for the skill with this id.
pub open spec fn cooldown_for(cooldowns: Seq<Cooldown>, id: Seq<char>) -> Option<int> {
    first_satisfying(cooldowns, |c: Cooldown| c.skill@ == id)
}

/// What using a skill needs to know of the player.
pub struct Fighter {
    pub vigor: u32,
    pub mastery: String,
    pub cooldowns: Vec<Cooldown>,
    pub in_combat: bool,
    /// Whether the player is still recovering from its last attack.
    pub attack_timer: bool,
    /// Whether a command waits for the recovery to end.
    pub queued_attack: bool,
}

/// What happens to the command that waits for the player's recovery.
#[derive(Clone, Copy, Debug, PartialEq, Eq, Structural)]
pub enum QueueChange {
    Unchanged,
    /// This command now waits.
    Queued,
    /// This command replaces the one that waited.
    Replaced,
}

/// What a skill command does.
pub struct SkillUse {
    /// What the player is told, in order.
    pub messages: Vec<String>,
    pub queue: QueueChange,
    /// The player's new combat state: it fights the named character at the
    /// skill's distance, from the front (and that character fights the player
    /// in the same way).
    pub engage: Option<CombatState>,
    /// The skill, by its position, whose attack starts.
    pub attack: Option<usize>,
}

/// The refusal for lack of vigor.
pub open spec fn vigor_text(name: Seq<char>) -> Seq<char> {
    "You don't have enough vigor to use "@ + name + "."@
}

/// The refusal while the skill cools down.
pub open spec fn cooldown_text(name: Seq<char>, secs: u64) -> Seq<char> {
    name + " is on cooldown for "@ + decimal(secs as nat) + " seconds."@
}

/// How the waiting command changes when a skill is used during recovery.
pub open spec fn queue_change(f: Fighter) -> QueueChange {
    if !f.attack_timer {
        QueueChange::Unchanged
    } else if f.queued_attack {
        QueueChange::Replaced
    } else {
        QueueChange::Queued
    }
}

/// What the player is told of the waiting command.
pub open spec fn queue_messages(f: Fighter) -> Seq<Seq<char>> {
    if !f.attack_timer {
        seq![]
    } else if f.queued_attack {
        seq!["Queued attack replaced."@]
    } else {
        seq!["Attack queued."@]
    }
}

/// A position as a mathematical integer.
pub open spec fn index_view(i: Option<usize>) -> Option<int> {
    match i {
        Some(k) => Some(k as int),
        None => None,
    }
}

/// A slice as a sequence.
pub open spec fn slice_view<T>(s: Option<&[T]>) -> Option<Seq<T>> {
    match s {
        Some(x) => Some(x@),
        None => None,
    }
}

/// What a skill command does: the messages, the waiting command, the target
/// engaged and the skill whose attack starts. The skill must be known, the
/// vigor suffice and the skill not cool down; during recovery the command
/// waits (and goes on); a named target must be found, else the player must
/// already fight.
pub open spec fn skill_use_outcome(
    word: Seq<char>,
    target: Option<Seq<char>>,
    f: Fighter,
    skills: Seq<Skill>,
    masteries: Seq<Mastery>,
    siblings: Option<Seq<NpcEntry>>,
) -> (Seq<Seq<char>>, QueueChange, Option<CombatState>, Option<int>) {
    match known_skill(skills, masteries, f.mastery@, word) {
        None => (seq!["You don't know how to do that."@], QueueChange::Unchanged, None, None),
        Some(k) => {
            let s = skills[k];
            if f.vigor < s.cost {
                (seq![vigor_text(s.name@)], QueueChange::Unchanged, None, None)
            } else {
                match cooldown_for(f.cooldowns@, s.id@) {
                    Some(c) => (
                        seq![cooldown_text(s.name@, f.cooldowns@[c].remaining_secs)],
                        QueueChange::Unchanged,
                        None,
                        None,
                    ),
                    None => match target {
                        Some(t) => match target_verdict(t, siblings) {
                            Err(e) => (
                                queue_messages(f).push(target_error_text(e)),
                                queue_change(f),
                                None,
                                None,
                            ),
                            Ok(n) => (
                                queue_messages(f),
                                queue_change(f),
                                Some(CombatState { target: n, distance: s.distance, approach: Approach::Front }),
                                Some(k),
                            ),
                        },
                        None => if f.in_combat {
                            (queue_messages(f), queue_change(f), None, Some(k))
                        } else {
                            (
                                queue_messages(f).push("You are not in combat."@),
                                queue_change(f),
                                None,
                                None,
                            )
                        },
                    },
                }
            }
        },
    }
}

/// Only the used skill's own cooldown refuses it. While a cooldown runs for
/// the skill, the first such cooldown's seconds are all the player is told;
/// otherwise the command goes exactly as it would with no cooldown running at
/// all, whatever other skills cool down.
pub proof fn lemma_only_own_cooldown_refuses(
    word: Seq<char>,
    target: Option<Seq<char>>,
    f: Fighter,
    rested: Fighter,
    skills: Seq<Skill>,
    masteries: Seq<Mastery>,
    siblings: Option<Seq<NpcEntry>>,
    k: int,
)
    requires
        known_skill(skills, masteries, f.mastery@, word) == Some(k),
        f.vigor >= skills[k].cost,
        rested.vigor == f.vigor,
        rested.mastery@ == f.mastery@,
        rested.in_combat == f.in_combat,
        rested.attack_timer == f.attack_timer,
        rested.queued_attack == f.queued_attack,
        rested.cooldowns@.len() == 0,
    ensures
        (forall|j: int|
            0 <= j < f.cooldowns@.len() ==> #[trigger] f.cooldowns@[j].skill@ != skills[k].id@)
            ==> skill_use_outcome(word, target, f, skills, masteries, siblings) == skill_use_outcome(
            word,
            target,
            rested,
            skills,
            masteries,
            siblings,
        ),
        forall|j: int|
            0 <= j < f.cooldowns@.len() && #[trigger] f.cooldowns@[j].skill@ == skills[k].id@ && (
            forall|i: int| 0 <= i < j ==> f.cooldowns@[i].skill@ != skills[k].id@) ==> skill_use_outcome(
                word,
                target,
                f,
                skills,
                masteries,
                siblings,
            ) == (
                seq![
                    skills[k].name@ + " is on cooldown for "@ + decimal(
                        f.cooldowns@[j].remaining_secs as nat,
                    ) + " seconds."@,
                ],
                QueueChange::Unchanged,
                None::<CombatState>,
                None::<int>,
            ),
{
    let p = |c: Cooldown| c.skill@ == skills[k].id@;
    lemma_first_satisfying(f.cooldowns@, p);
    lemma_first_satisfying(rested.cooldowns@, p);
    assert forall|j: int|
        0 <= j < f.cooldowns@.len() && #[trigger] f.cooldowns@[j].skill@ == skills[k].id@ && (
        forall|i: int| 0 <= i < j ==> f.cooldowns@[i].skill@ != skills[k].id@) implies cooldown_for(
        f.cooldowns@,
        skills[k].id@,
    ) == Some(j) by {
        assert forall|i: int| #![trigger f.cooldowns@[i]] 0 <= i < j implies !p(f.cooldowns@[i]) by {
            assert(f.cooldowns@[i].skill@ != skills[k].id@);
        }
        lemma_first_satisfying_at(f.cooldowns@, p, j);
    }
}

/// Finds the cooldown of a skill.
fn find_cooldown(cooldowns: &[Cooldown], id: &String) -> (r: Option<usize>)
    ensures
        match r {
            Some(i) => cooldown_for(cooldowns@, id@) == Some(i as int) && i < cooldowns@.len(),
            None => cooldown_for(cooldowns@, id@) is None,
        },
{
    let ghost p = |c: Cooldown| c.skill@ == id@;
    let mut i: usize = 0;
    while i < cooldowns.len()
        invariant
            i <= cooldowns@.len(),
            p == (|c: Cooldown| c.skill@ == id@),
            forall|j: int| #![trigger cooldowns@[j]] 0 <= j < i ==> !p(cooldowns@[j]),
        decreases cooldowns@.len() - i,
    {
        if cooldowns[i].skill == *id {
            proof {
                lemma_first_satisfying_at(cooldowns@, p, i as int);
            }
            return Some(i);
        }
        i = i + 1;
    }
    proof {
        lemma_first_satisfying(cooldowns@, p);
    }
    None
}

/// One message.
fn one_message(m: String) -> (r: Vec<String>)
    ensures
        sviews(r@) == seq![m@],
{
    let mut r: Vec<String> = Vec::new();
    r.push(m);
    assert(sviews(r@) =~= seq![m@]);
    r
}

/// Adds a message.
fn add_message(messages: &mut Vec<String>, m: String)
    ensures
        sviews(final(messages)@) == sviews(old(messages)@).push(m@),
{
    messages.push(m);
    assert(sviews(messages@) =~= sviews(old(messages)@).push(m@));
}

/// Handles a skill command: the skill word, and the target if one is named.
pub fn use_skill(
    word: &str,
    target: Option<&str>,
    fighter: &Fighter,
    skills: &[Skill],
    masteries: &[Mastery],
    siblings: Option<&[NpcEntry]>,
) -> (r: SkillUse)
    ensures
        (sviews(r.messages@), r.queue, r.engage, index_view(r.attack)) == skill_use_outcome(
            word@,
            match target {
                Some(t) => Some(t@),
                None => None,
            },
            *fighter,
            skills@,
            masteries@,
            slice_view(siblings),
        ),
{
    let k = match get_skill(skills, masteries, fighter.mastery.as_str(), word) {
        Ok(k) => k,
        Err(e) => {
            return SkillUse {
                messages: one_message(e.message()),
                queue: QueueChange::Unchanged,
                engage: None,
                attack: None,
            };
        },
    };
    let skill = &skills[k];
    if fighter.vigor < skill.cost {
        let mut t = String::from_str("You don't have enough vigor to use ");
        t.append(skill.name.as_str());
        t.append(".");
        return SkillUse {
            messages: one_message(t),
            queue: QueueChange::Unchanged,
            engage: None,
            attack: None,
        };
    }
    proof {
        lemma_first_satisfying(fighter.cooldowns@, |c: Cooldown| c.skill@ == skill.id@);
    }
    match find_cooldown(fighter.cooldowns.as_slice(), &skill.id) {
        Some(c) => {
            let mut v: Vec<char> = chars_of(skill.name.as_str());
            append_str(&mut v, " is on cooldown for ");
            let digits = decimal_chars(fighter.cooldowns[c].remaining_secs);
            append_chars(&mut v, digits.as_slice());
            append_str(&mut v, " seconds.");
            return SkillUse {
                messages: one_message(string_of(v.as_slice())),
                queue: QueueChange::Unchanged,
                engage: None,
                attack: None,
            };
        },
        None => {},
    }
    let mut messages: Vec<String> = Vec::new();
    let mut queue = QueueChange::Unchanged;
    if fighter.attack_timer {
        if fighter.queued_attack {
            add_message(&mut messages, String::from_str("Queued attack replaced."));
            queue = QueueChange::Replaced;
        } else {
            add_message(&mut messages, String::from_str("Attack queued."));
            queue = QueueChange::Queued;
        }
    }
    assert(sviews(messages@) =~= queue_messages(*fighter));
    match target {
        Some(t) => match get_target(t, siblings) {
            Err(e) => {
                add_message(&mut messages, e.message());
                SkillUse { messages, queue, engage: None, attack: None }
            },
            Ok(n) => SkillUse {
                messages,
                queue,
                engage: Some(
                    CombatState { target: n, distance: skill.distance, approach: Approach::Front },
                ),
                attack: Some(k),
            },
        },
        None => {
            if fighter.in_combat {
                SkillUse { messages, queue, engage: None, attack: Some(k) }
            } else {
                add_message(&mut messages, String::from_str("You are not in combat."));
                SkillUse { messages, queue, engage: None, attack: None }
            }
        },
    }
}

// ---------------------------------------------------------------------------
// Attacking, guarding, retreating.
// ---------------------------------------------------------------------------

/// A fault in the game data: the system that meets it stops.
#[derive(Debug, PartialEq, Eq)]
pub enum CombatError {
    /// No mastery has this id.
    MasteryNotFound(String),
    /// No skill has this id.
    SkillNotFound(String),
    /// No condition has this id.
    ConditionNotFound(String),
    /// No damage kind has this id.
    DamageKindNotFound(String),
    /// The entity is neither a character nor a hostile.
    NotAFighter,
}

/// A fault in the game data, as plain values.
pub enum CombatErrorView {
    MasteryNotFound(Seq<char>),
    SkillNotFound(Seq<char>),
    ConditionNotFound(Seq<char>),
    DamageKindNotFound(Seq<char>),
    NotAFighter,
}

/// A fault in the game data as plain values.
pub open spec fn combat_error_view(e: CombatError) -> CombatErrorView {
    match e {
        CombatError::MasteryNotFound(m) => CombatErrorView::MasteryNotFound(m@),
        CombatError::SkillNotFound(k) => CombatErrorView::SkillNotFound(k@),
        CombatError::ConditionNotFound(c) => CombatErrorView::ConditionNotFound(c@),
        CombatError::DamageKindNotFound(d) => CombatErrorView::DamageKindNotFound(d@),
        CombatError::NotAFighter => CombatErrorView::NotAFighter,
    }
}

/// What the attack command does.
pub struct AttackStart {
    pub message: Option<String>,
    /// The player's new combat state: it fights the named character, near and
    /// from the front (and that character fights the player in the same way).
    pub engage: Option<CombatState>,
    /// The automatic attack, by its position, whose attack starts.
    pub attack: Option<usize>,
}

/// What the attack command does, as plain values: a message, the target and
/// the skill; or a fault in the game data.
pub open spec fn attack_outcome(
    target: Option<Seq<char>>,
    in_combat: bool,
    mastery: Seq<char>,
    skills: Seq<Skill>,
    masteries: Seq<Mastery>,
    siblings: Option<Seq<NpcEntry>>,
) -> Result<(Option<Seq<char>>, Option<CombatState>, Option<int>), CombatErrorView> {
    if in_combat {
        Ok((Some("You are already in combat."@), None, None))
    } else {
        match target {
            None => Ok((None, None, None)),
            Some(t) => match target_verdict(t, siblings) {
                Err(e) => Ok((Some(target_error_text(e)), None, None)),
                Ok(n) => match mastery_with_id(masteries, mastery) {
                    None => Err(CombatErrorView::MasteryNotFound(mastery)),
                    Some(m) => match skill_with_id(skills, masteries[m].auto_attack@) {
                        None => Err(CombatErrorView::SkillNotFound(masteries[m].auto_attack@)),
                        Some(k) => Ok(
                            (
                                None,
                                Some(
                                    CombatState {
                                        target: n,
                                        distance: Distance::Near,
                                        approach: Approach::Front,
                                    },
                                ),
                                Some(k),
                            ),
                        ),
                    },
                },
            },
        }
    }
}

/// An attack command's outcome as plain values.
pub open spec fn attack_start_view(r: Result<AttackStart, CombatError>) -> Result<
    (Option<Seq<char>>, Option<CombatState>, Option<int>),
    CombatErrorView,
> {
    match r {
        Ok(a) => Ok(
            (
                match a.message {
                    Some(m) => Some(m@),
                    None => None,
                },
                a.engage,
                index_view(a.attack),
            ),
        ),
        Err(e) => Err(combat_error_view(e)),
    }
}

/// Handles the attack command: a player who does not fight yet starts
/// fighting the named character with the automatic attack of its mastery.
pub fn attack(
    target: Option<&str>,
    in_combat: bool,
    mastery: &str,
    skills: &[Skill],
    masteries: &[Mastery],
    siblings: Option<&[NpcEntry]>,
) -> (r: Result<AttackStart, CombatError>)
    ensures
        attack_start_view(r) == attack_outcome(
            match target {
                Some(t) => Some(t@),
                None => None,
            },
            in_combat,
            mastery@,
            skills@,
            masteries@,
            slice_view(siblings),
        ),
{
    if in_combat {
        return Ok(
            AttackStart {
                message: Some(String::from_str("You are already in combat.")),
                engage: None,
                attack: None,
            },
        );
    }
    let t = match target {
        None => return Ok(AttackStart { message: None, engage: None, attack: None }),
        Some(t) => t,
    };
    let n = match get_target(t, siblings) {
        Err(e) => return Ok(AttackStart { message: Some(e.message()), engage: None, attack: None }),
        Ok(n) => n,
    };
    let m = match find_mastery(masteries, mastery) {
        None => return Err(CombatError::MasteryNotFound(String::from_str(mastery))),
        Some(m) => m,
    };
    let k = match find_skill(skills, masteries[m].auto_attack.as_str()) {
        None => return Err(CombatError::SkillNotFound(masteries[m].auto_attack.clone())),
        Some(k) => k,
    };
    Ok(
        AttackStart {
            message: None,
            engage: Some(
                CombatState { target: n, distance: Distance::Near, approach: Approach::Front },
            ),
            attack: Some(k),
        },
    )
}

/// A defensive stance a player can take.
#[derive(Clone, Copy, Debug, PartialEq, Eq, Structural)]
pub enum Guard {
    Block,
    Dodge,
}

/// The verb of a stance.
pub open spec fn guard_verb(g: Guard) -> Seq<char> {
    match g {
        Guard::Block => "block"@,
        Guard::Dodge => "dodge"@,
    }
}

/// What the player is told when taking a stance, or failing to.
pub open spec fn guard_text(g: Guard, on_cooldown: bool) -> Seq<char> {
    if on_cooldown {
        "You are not ready to "@ + guard_verb(g) + " again."@
    } else {
        "You prepare to "@ + guard_verb(g) + "."@
    }
}

/// Takes a stance unless it cools down.
fn guard(stance: Guard, on_cooldown: bool) -> (r: (bool, String))
    ensures
        r.0 == !on_cooldown,
        r.1@ == guard_text(stance, on_cooldown),
{
    let verb = match stance {
        Guard::Block => "block",
        Guard::Dodge => "dodge",
    };
    if on_cooldown {
        let mut t = String::from_str("You are not ready to ");
        t.append(verb);
        t.append(" again.");
        (false, t)
    } else {
        let mut t = String::from_str("You prepare to ");
        t.append(verb);
        t.append(".");
        (true, t)
    }
}

/// Handles the block command: unless blocking cools down, the player
/// prepares to block (and the cooldown starts).
pub fn block(on_cooldown: bool) -> (r: (bool, String))
    ensures
        r.0 == !on_cooldown,
        r.1@ == guard_text(Guard::Block, on_cooldown),
{
    guard(Guard::Block, on_cooldown)
}

/// Handles the dodge command: unless dodging cools down, the player
/// prepares to dodge (and the cooldown starts).
pub fn dodge(on_cooldown: bool) -> (r: (bool, String))
    ensures
        r.0 == !on_cooldown,
        r.1@ == guard_text(Guard::Dodge, on_cooldown),
{
    guard(Guard::Dodge, on_cooldown)
}

/// Handles the retreat command: a player in combat steps back (its distance
/// becomes far, its target's near, and its recovery starts).
pub fn retreat(in_combat: bool) -> (r: (bool, String))
    ensures
        r.0 == in_combat,
        r.1@ == if in_combat {
            "You retreat from your target."@
        } else {
            "You are not in combat."@
        },
{
    if in_combat {
        (true, String::from_str("You retreat from your target."))
    } else {
        (false, String::from_str("You are not in combat."))
    }
}

// ---------------------------------------------------------------------------
// The steps of an attack.
// ---------------------------------------------------------------------------

/// A step that an attack goes on to.
#[derive(Clone, Copy, Debug, PartialEq, Eq, Structural)]
pub enum FollowUp {
    ExecuteScripts(ExecutionPhase),
    AttemptHit,
    AttemptDodge,
    AttemptBlock,
}

/// What starting an attack costs the attacker, and where the attack goes on.
pub struct AttackCost {
    /// The attacker's vigor afterwards.
    pub vigor: u32,
    /// The cooldown, in seconds, that starts for the skill.
    pub cooldown: Option<u32>,
    pub follow_ups: Vec<FollowUp>,
}

/// Starts an attack with a skill: the skill's cost is taken from the vigor
/// (which does not fall below zero), its cooldown starts when it has one, the
/// scripts for its use run and the hit is attempted.
pub fn on_combat_event_attack(vigor: u32, skill: &Skill) -> (r: AttackCost)
    ensures
        r.vigor == if vigor >= skill.cost {
            vigor - skill.cost
        } else {
            0
        },
        r.cooldown == if skill.cooldown > 0 {
            Some(skill.cooldown)
        } else {
            None::<u32>
        },
        r.follow_ups@ == seq![
            FollowUp::ExecuteScripts(ExecutionPhase::OnUse),
            FollowUp::AttemptHit,
        ],
{
    let cooldown = if skill.cooldown > 0 {
        Some(skill.cooldown)
    } else {
        None
    };
    let follow_ups = vec![FollowUp::ExecuteScripts(ExecutionPhase::OnUse), FollowUp::AttemptHit];
    AttackCost { vigor: vigor.saturating_sub(skill.cost), cooldown, follow_ups }
}

/// Whether a skill reaches: a skill for either distance always does, another
/// only at its own distance. One that does not reach misses.
pub fn on_combat_event_attempt_hit(skill_distance: Distance, distance: Distance) -> (r: FollowUp)
    ensures
        r == if skill_distance != Distance::Either && distance != skill_distance {
            FollowUp::ExecuteScripts(ExecutionPhase::OnMiss)
        } else {
            FollowUp::AttemptDodge
        },
{
    if skill_distance != Distance::Either && distance != skill_distance {
        FollowUp::ExecuteScripts(ExecutionPhase::OnMiss)
    } else {
        FollowUp::AttemptDodge
    }
}

/// How a defense against an attack turns out.
#[derive(Clone, Copy, Debug, PartialEq, Eq, Structural)]
pub enum DefenseStep {
    /// The defender's stance cools down: the attack goes no further.
    Halted,
    /// The attack is avoided: the scripts of the phase run when the attack
    /// comes from a skill, and a prepared stance is used up.
    Avoided { scripts: Option<ExecutionPhase>, spend_stance: bool },
    /// The attack goes on.
    Through(FollowUp),
}

/// The dodge step: `dodged` is whether the roll fell within the target's
/// chance to dodge.
pub fn on_combat_event_attempt_dodge(on_cooldown: bool, dodged: bool, from_skill: bool, stance: bool) -> (r:
    DefenseStep)
    ensures
        r == if on_cooldown {
            DefenseStep::Halted
        } else if dodged {
            DefenseStep::Avoided {
                scripts: if from_skill {
                    Some(ExecutionPhase::OnDodge)
                } else {
                    None
                },
                spend_stance: stance,
            }
        } else {
            DefenseStep::Through(FollowUp::AttemptBlock)
        },
{
    if on_cooldown {
        DefenseStep::Halted
    } else if dodged {
        DefenseStep::Avoided {
            scripts: if from_skill {
                Some(ExecutionPhase::OnDodge)
            } else {
                None
            },
            spend_stance: stance,
        }
    } else {
        DefenseStep::Through(FollowUp::AttemptBlock)
    }
}

/// The block step: `blocked` is whether the roll fell within the target's
/// chance to block. An attack that is not blocked hits.
pub fn on_combat_event_attempt_block(on_cooldown: bool, blocked: bool, from_skill: bool, stance: bool) -> (r:
    DefenseStep)
    ensures
        r == if on_cooldown {
            DefenseStep::Halted
        } else if blocked {
            DefenseStep::Avoided {
                scripts: if from_skill {
                    Some(ExecutionPhase::OnBlock)
                } else {
                    None
                },
                spend_stance: stance,
            }
        } else {
            DefenseStep::Through(FollowUp::ExecuteScripts(ExecutionPhase::OnHit))
        },
{
    if on_cooldown {
        DefenseStep::Halted
    } else if blocked {
        DefenseStep::Avoided {
            scripts: if from_skill {
                Some(ExecutionPhase::OnBlock)
            } else {
                None
            },
            spend_stance: stance,
        }
    } else {
        DefenseStep::Through(FollowUp::ExecuteScripts(ExecutionPhase::OnHit))
    }
}

/// How an attempt to flee turns out.
pub enum FleeOutcome {
    /// The last attempt is too recent: this text is sent.
    NotReady(String),
    /// The player escapes (and must wait before fleeing again).
    Fled,
    /// The player stays (and must wait before fleeing again): this text is sent.
    Failed(String),
}

/// The flee step: `escaped` is whether the roll fell within the player's
/// chance to flee.
pub fn on_combat_event_attempt_flee(on_cooldown: bool, escaped: bool) -> (r: FleeOutcome)
    ensures
        on_cooldown ==> (r matches FleeOutcome::NotReady(t) && t@
            == "You are not ready to flee again."@),
        !on_cooldown && escaped ==> r is Fled,
        !on_cooldown && !escaped ==> (r matches FleeOutcome::Failed(t) && t@
            == "You failed to get away."@),
{
    if on_cooldown {
        FleeOutcome::NotReady(String::from_str("You are not ready to flee again."))
    } else if escaped {
        FleeOutcome::Fled
    } else {
        FleeOutcome::Failed(String::from_str("You failed to get away."))
    }
}

// ---------------------------------------------------------------------------
// Damage and recovery.
// ---------------------------------------------------------------------------

/// A kind of damage, and the resistances that hold it off.
pub struct DamageKind {
    pub id: String,
    pub name: String,
    pub description: String,
    pub resistances: Vec<String>,
}

/// The damage kind with this id.
pub open spec fn damage_kind_with_id(kinds: Seq<DamageKind>, id: Seq<char>) -> Option<int> {
    first_satisfying(kinds, |k: DamageKind| k.id@ == id)
}

/// Finds the damage kind with this id; one that does not exist is a fault
/// in the game data.
pub fn find_damage_kind(kinds: &[DamageKind], id: &str) -> (r: Result<usize, CombatError>)
    ensures
        match damage_kind_with_id(kinds@, id@) {
            Some(i) => r == Ok::<usize, CombatError>(i as usize) && i < kinds@.len(),
            None => r matches Err(CombatError::DamageKindNotFound(n)) && n@ == id@,
        },
{
    let ghost p = |k: DamageKind| k.id@ == id@;
    let wanted = String::from_str(id);
    let mut i: usize = 0;
    while i < kinds.len()
        invariant
            i <= kinds@.len(),
            wanted@ == id@,
            p == (|k: DamageKind| k.id@ == id@),
            forall|j: int| #![trigger kinds@[j]] 0 <= j < i ==> !p(kinds@[j]),
        decreases kinds@.len() - i,
    {
        if kinds[i].id == wanted {
            proof {
                lemma_first_satisfying_at(kinds@, p, i as int);
            }
            return Ok(i);
        }
        i = i + 1;
    }
    proof {
        lemma_first_satisfying(kinds@, p);
    }
    Err(CombatError::DamageKindNotFound(wanted))
}

/// The resistance a fighter has, by the resistance's id.
pub struct ResistanceEntry {
    pub resistance: String,
    pub amount: u32,
}

/// The sum of the fighter's resistances that hold off the damage kind.
pub open spec fn resistance_total(entries: Seq<ResistanceEntry>, resisted_by: Seq<Seq<char>>) -> nat
    decreases entries.len(),
{
    if entries.len() == 0 {
        0
    } else {
        resistance_total(entries.drop_last(), resisted_by) + if resisted_by.contains(
            entries.last().resistance@,
        ) {
            entries.last().amount as nat
        } else {
            0
        }
    }
}

/// Sums the fighter's resistances that hold off the damage kind.
pub fn total_resistance(entries: &[ResistanceEntry], kind: &DamageKind) -> (r: u32)
    requires
        resistance_total(entries@, sviews(kind.resistances@)) <= u32::MAX,
    ensures
        r == resistance_total(entries@, sviews(kind.resistances@)),
{
    let resisted_by = &kind.resistances;
    let mut sum: u32 = 0;
    let mut i: usize = 0;
    while i < entries.len()
        invariant
            i <= entries@.len(),
            sum == resistance_total(entries@.take(i as int), sviews(resisted_by@)),
            resistance_total(entries@, sviews(resisted_by@)) <= u32::MAX,
        decreases entries@.len() - i,
    {
        proof {
            lemma_resistance_total_prefix(entries@, sviews(resisted_by@), i as int + 1);
            assert(entries@.take(i + 1).drop_last() == entries@.take(i as int));
        }
        if strings_contain(resisted_by, entries[i].resistance.as_str()) {
            sum = sum + entries[i].amount;
        }
        i = i + 1;
    }
    assert(entries@.take(entries@.len() as int) == entries@);
    sum
}

/// A prefix has no more resistance than the whole.
proof fn lemma_resistance_total_prefix(
    entries: Seq<ResistanceEntry>,
    resisted_by: Seq<Seq<char>>,
    n: int,
)
    requires
        0 <= n <= entries.len(),
    ensures
        resistance_total(entries.take(n), resisted_by) <= resistance_total(entries, resisted_by),
    decreases entries.len(),
{
    if n < entries.len() {
        lemma_resistance_total_prefix(entries.drop_last(), resisted_by, n);
        assert(entries.drop_last().take(n) == entries.take(n));
    } else {
        assert(entries.take(n) == entries);
    }
}

/// The damage a hit deals: its base (rounded down), the critical bonus when
/// the hit is critical, all of it unless the target resists the kind
/// entirely (a resisted amount of 1).
pub fn damage_dealt(base: u32, critical_bonus: Option<u32>, resisted: u32) -> (r: u32)
    requires
        resisted <= 1,
        critical_bonus matches Some(b) ==> base + b <= u32::MAX,
    ensures
        r == (base + match critical_bonus {
            Some(b) => b,
            None => 0,
        }) * (1 - resisted),
{
    let mut damage = base;
    match critical_bonus {
        Some(b) => {
            damage = damage + b;
        },
        None => {},
    }
    let ghost total: int = damage as int;
    if resisted == 1 {
        assert(total * (1 - resisted) == 0) by (nonlinear_arith)
            requires
                resisted == 1,
        ;
        0
    } else {
        assert(total * (1 - resisted) == total) by (nonlinear_arith)
            requires
                resisted == 0,
        ;
        damage
    }
}

/// Health after a hit: it does not fall below zero.
pub fn take_damage(health: u32, damage: u32) -> (r: u32)
    ensures
        r == if health >= damage {
            health - damage
        } else {
            0
        },
{
    health.saturating_sub(damage)
}

/// One damage event of a damage step, as the step reads it.
#[derive(Clone, Copy, Debug, PartialEq, Eq, Structural)]
pub struct DamageEvent {
    /// Whether the one who acts, the character it names and the damage kind
    /// were all found.
    pub resolved: bool,
    /// The position, among the fighters, of the one that takes the damage.
    pub target: usize,
    /// The damage dealt (critical bonus and resistance already counted).
    pub damage: u32,
    /// Whether the script that dealt the damage asked to be called back.
    pub with_callback: bool,
}

/// Why a damage step stopped.
#[derive(Clone, Copy, Debug, PartialEq, Eq, Structural)]
pub enum DamageFault {
    /// The event at this position was not resolved: the step ends before
    /// any health changes.
    Unresolved(usize),
    /// The fighter that the event at this position strikes does not exist:
    /// the events before it have been applied, this one and those after it
    /// are not.
    MissingTarget(usize),
}

/// What a damage step did: the positions of the events whose scripts are
/// called back, in order, and the fault that stopped it, if any.
pub struct DamageStep {
    pub callbacks: Vec<usize>,
    pub fault: Option<DamageFault>,
}

/// The healths after the events are applied in order, each lowering its
/// target's health by its damage, down to zero at most.
pub open spec fn healths_after(healths: Seq<u32>, events: Seq<DamageEvent>) -> Seq<u32>
    decreases events.len(),
{
    if events.len() == 0 {
        healths
    } else {
        let before = healths_after(healths, events.drop_last());
        let e = events.last();
        if e.target < before.len() {
            before.update(
                e.target as int,
                if before[e.target as int] >= e.damage {
                    (before[e.target as int] - e.damage) as u32
                } else {
                    0u32
                },
            )
        } else {
            before
        }
    }
}

/// The positions of the events with a callback, in order.
pub open spec fn callbacks_of(events: Seq<DamageEvent>) -> Seq<usize>
    decreases events.len(),
{
    if events.len() == 0 {
        Seq::empty()
    } else if events.last().with_callback {
        callbacks_of(events.drop_last()).push((events.len() - 1) as usize)
    } else {
        callbacks_of(events.drop_last())
    }
}

/// The first event that was not resolved.
pub open spec fn first_unresolved(events: Seq<DamageEvent>) -> Option<int> {
    first_satisfying(events, |e: DamageEvent| !e.resolved)
}

/// The first event whose target is not among `count` fighters.
pub open spec fn first_missing_target(events: Seq<DamageEvent>, count: nat) -> Option<int> {
    first_satisfying(events, |e: DamageEvent| e.target >= count)
}

/// The damage step: every event is read first, and one that is not resolved
/// ends the whole step before any health changes. Then the events are applied
/// in order, each lowering its target's health by its damage, down to zero at
/// most, and the scripts that asked are called back; a target that does not
/// exist stops the step there.
pub fn apply_damage(healths: &mut Vec<u32>, events: &[DamageEvent]) -> (r: DamageStep)
    ensures
        final(healths)@.len() == old(healths)@.len(),
        match first_unresolved(events@) {
            Some(k) => {
                &&& final(healths)@ == old(healths)@
                &&& r.callbacks@ == Seq::<usize>::empty()
                &&& r.fault == Some(DamageFault::Unresolved(k as usize))
            },
            None => match first_missing_target(events@, old(healths)@.len()) {
                Some(m) => {
                    &&& final(healths)@ == healths_after(old(healths)@, events@.take(m))
                    &&& r.callbacks@ == callbacks_of(events@.take(m))
                    &&& r.fault == Some(DamageFault::MissingTarget(m as usize))
                },
                None => {
                    &&& final(healths)@ == healths_after(old(healths)@, events@)
                    &&& r.callbacks@ == callbacks_of(events@)
                    &&& r.fault == None::<DamageFault>
                },
            },
        },
{
    let ghost unresolved = |e: DamageEvent| !e.resolved;
    let mut i: usize = 0;
    while i < events.len()
        invariant
            i <= events@.len(),
            unresolved == (|e: DamageEvent| !e.resolved),
            forall|j: int| #![trigger events@[j]] 0 <= j < i ==> !unresolved(events@[j]),
        decreases events@.len() - i,
    {
        if !events[i].resolved {
            proof {
                lemma_first_satisfying_at(events@, unresolved, i as int);
            }
            return DamageStep { callbacks: Vec::new(), fault: Some(DamageFault::Unresolved(i)) };
        }
        i = i + 1;
    }
    proof {
        lemma_first_satisfying(events@, unresolved);
        assert(first_unresolved(events@) is None);
    }
    let ghost count: nat = healths@.len();
    let ghost start: Seq<u32> = healths@;
    let ghost missing = |e: DamageEvent| e.target >= count;
    let mut callbacks: Vec<usize> = Vec::new();
    let mut i: usize = 0;
    while i < events.len()
        invariant
            i <= events@.len(),
            healths@.len() == count,
            count == old(healths)@.len(),
            start == old(healths)@,
            first_unresolved(events@) is None,
            missing == (|e: DamageEvent| e.target >= count),
            forall|j: int| #![trigger events@[j]] 0 <= j < i ==> !missing(events@[j]),
            healths@ == healths_after(start, events@.take(i as int)),
            callbacks@ == callbacks_of(events@.take(i as int)),
        decreases events@.len() - i,
    {
        let e = events[i];
        proof {
            assert(events@.take(i + 1).drop_last() == events@.take(i as int));
            assert(events@.take(i + 1).last() == e);
            assert(events@.take(i + 1).len() == i + 1);
        }
        if e.target >= healths.len() {
            proof {
                lemma_first_satisfying_at(events@, missing, i as int);
            }
            return DamageStep { callbacks, fault: Some(DamageFault::MissingTarget(i)) };
        }
        let now = healths[e.target];
        healths.set(e.target, take_damage(now, e.damage));
        if e.with_callback {
            callbacks.push(i);
        }
        i = i + 1;
    }
    proof {
        lemma_first_satisfying(events@, missing);
        assert(events@.take(events@.len() as int) == events@);
    }
    DamageStep { callbacks, fault: None }
}

/// A regeneration tick: the amount per tick is added, up to the maximum.
pub fn regenerate(current: u32, per_tick: u32, max: u32) -> (r: u32)
    requires
        current + per_tick <= u32::MAX,
    ensures
        r == if current + per_tick <= max {
            current + per_tick
        } else {
            max as int
        },
{
    let sum = current + per_tick;
    if sum <= max {
        sum
    } else {
        max
    }
}

// ---------------------------------------------------------------------------
// Timers and deaths.
// ---------------------------------------------------------------------------

/// What happens when a fighter's recovery from its attack ends.
#[derive(Debug, PartialEq, Eq)]
pub enum AttackReady {
    /// The command that waited is carried out.
    ReplayQueued,
    /// The player is told.
    Notify(String),
    /// A fighter without a client: nothing.
    Nothing,
}

/// When recovery ends, the command that waited is carried out; with none,
/// the player is told it may attack again.
pub fn update_attack_timer(queued: bool, has_client: bool) -> (r: AttackReady)
    ensures
        queued ==> r == AttackReady::ReplayQueued,
        !queued && has_client ==> (r matches AttackReady::Notify(t) && t@
            == "You are ready to attack again."@),
        !queued && !has_client ==> r == AttackReady::Nothing,
{
    if queued {
        AttackReady::ReplayQueued
    } else if has_client {
        AttackReady::Notify(String::from_str("You are ready to attack again."))
    } else {
        AttackReady::Nothing
    }
}

/// The text that a skill's cooldown is over.
pub fn update_cooldowns(skills: &[Skill], id: &str) -> (r: Result<String, CombatError>)
    ensures
        match skill_with_id(skills@, id@) {
            Some(k) => r matches Ok(t) && t@ == skills@[k].name@ + " is ready."@,
            None => r is Err,
        },
{
    match find_skill(skills, id) {
        Some(k) => {
            let mut t = skills[k].name.clone();
            t.append(" is ready.");
            Ok(t)
        },
        None => Err(CombatError::SkillNotFound(String::from_str(id))),
    }
}

/// A fighter and the one it fights.
pub struct Engagement {
    pub fighter: u64,
    pub state: CombatState,
}

/// The fighters that fight the given one, in order.
pub open spec fn fighting(engagements: Seq<Engagement>, entity: u64) -> Seq<u64>
    decreases engagements.len(),
{
    if engagements.len() == 0 {
        seq![]
    } else {
        fighting(engagements.drop_last(), entity) + if engagements.last().state.target == entity {
            seq![engagements.last().fighter]
        } else {
            seq![]
        }
    }
}

/// The fighters that fight the given one: when it dies they stop fighting.
pub fn fighters_of(engagements: &[Engagement], entity: u64) -> (r: Vec<u64>)
    ensures
        r@ == fighting(engagements@, entity),
{
    let mut r: Vec<u64> = Vec::new();
    let mut i: usize = 0;
    while i < engagements.len()
        invariant
            i <= engagements@.len(),
            r@ == fighting(engagements@.take(i as int), entity),
        decreases engagements@.len() - i,
    {
        proof {
            assert(engagements@.take(i + 1).drop_last() == engagements@.take(i as int));
        }
        if engagements[i].state.target == entity {
            r.push(engagements[i].fighter);
        }
        i = i + 1;
        assert(r@ =~= fighting(engagements@.take(i as int), entity));
    }
    assert(engagements@.take(engagements@.len() as int) == engagements@);
    r
}

/// What the players on the tile of a hostile that has no health left are told.
pub fn on_hostile_death(name: &str, health: u32) -> (r: Option<String>)
    ensures
        health == 0 ==> (r matches Some(t) && t@ == name@ + " has died."@),
        health != 0 ==> r is None,
{
    if health == 0 {
        let mut t = String::from_str(name);
        t.append(" has died.");
        Some(t)
    } else {
        None
    }
}

/// What happens to a player that has no health left.
pub struct PlayerDeath {
    pub text: String,
    /// Its health afterwards: all of it.
    pub health: u32,
    /// Where it is taken, when the world has a place for the dead; it then
    /// looks around.
    pub teleport: Option<u64>,
}

/// A player with no health left is told it died, stops fighting, gets its
/// health back and is taken to the place for the dead, if there is one.
pub fn on_player_death(health: u32, max_health: u32, death_spawn: Option<u64>) -> (r: Option<
    PlayerDeath,
>)
    ensures
        health != 0 ==> r is None,
        health == 0 ==> (r matches Some(d) && d.text@ == "You have died."@ && d.health == max_health
            && d.teleport == death_spawn),
{
    if health == 0 {
        Some(
            PlayerDeath {
                text: String::from_str("You have died."),
                health: max_health,
                teleport: death_spawn,
            },
        )
    } else {
        None
    }
}

// ---------------------------------------------------------------------------
// Automatic attacks, conditions and distances.
// ---------------------------------------------------------------------------

/// Who fights, as far as its automatic attack goes.
pub enum CharacterOrHostile {
    /// A player's character, of this mastery.
    Character { mastery: String },
    /// A hostile, with the id of its automatic attack.
    Hostile { auto_attack: String },
    /// Neither.
    Neither,
}

/// The automatic attack of a fighter: a character's comes from its mastery,
/// a hostile's is its own; either must name a skill that exists.
pub open spec fn auto_attack_of(
    c: CharacterOrHostile,
    skills: Seq<Skill>,
    masteries: Seq<Mastery>,
) -> Option<int> {
    match c {
        CharacterOrHostile::Character { mastery } => match mastery_with_id(masteries, mastery@) {
            Some(m) => skill_with_id(skills, masteries[m].auto_attack@),
            None => None,
        },
        CharacterOrHostile::Hostile { auto_attack } => skill_with_id(skills, auto_attack@),
        CharacterOrHostile::Neither => None,
    }
}

impl CharacterOrHostile {
    /// Finds the automatic attack of the fighter.
    pub fn get_auto_attack(&self, skills: &[Skill], masteries: &[Mastery]) -> (r: Result<
        usize,
        CombatError,
    >)
        ensures
            match auto_attack_of(*self, skills@, masteries@) {
                Some(k) => r == Ok::<usize, CombatError>(k as usize),
                None => r is Err,
            },
    {
        match self {
            CharacterOrHostile::Character { mastery } => {
                let m = match find_mastery(masteries, mastery.as_str()) {
                    Some(m) => m,
                    None => return Err(CombatError::MasteryNotFound(mastery.clone())),
                };
                match find_skill(skills, masteries[m].auto_attack.as_str()) {
                    Some(k) => Ok(k),
                    None => Err(CombatError::SkillNotFound(masteries[m].auto_attack.clone())),
                }
            },
            CharacterOrHostile::Hostile { auto_attack } => match find_skill(
                skills,
                auto_attack.as_str(),
            ) {
                Some(k) => Ok(k),
                None => Err(CombatError::SkillNotFound(auto_attack.clone())),
            },
            CharacterOrHostile::Neither => Err(CombatError::NotAFighter),
        }
    }
}

/// A condition: its scripts run when it is applied and when it ends.
pub struct Condition {
    pub id: String,
    pub name: String,
    pub description: String,
    pub scripts: Vec<String>,
}

/// The condition with this id.
pub open spec fn condition_with_id(conditions: Seq<Condition>, id: Seq<char>) -> Option<int> {
    first_satisfying(conditions, |c: Condition| c.id@ == id)
}

/// Finds the condition with this id; one that does not exist is a fault in
/// the game data.
pub fn find_condition(conditions: &[Condition], id: &str) -> (r: Result<usize, CombatError>)
    ensures
        match condition_with_id(conditions@, id@) {
            Some(i) => r == Ok::<usize, CombatError>(i as usize) && i < conditions@.len(),
            None => r matches Err(CombatError::ConditionNotFound(n)) && n@ == id@,
        },
{
    let ghost p = |c: Condition| c.id@ == id@;
    let wanted = String::from_str(id);
    let mut i: usize = 0;
    while i < conditions.len()
        invariant
            i <= conditions@.len(),
            wanted@ == id@,
            p == (|c: Condition| c.id@ == id@),
            forall|j: int| #![trigger conditions@[j]] 0 <= j < i ==> !p(conditions@[j]),
        decreases conditions@.len() - i,
    {
        if conditions[i].id == wanted {
            proof {
                lemma_first_satisfying_at(conditions@, p, i as int);
            }
            return Ok(i);
        }
        i = i + 1;
    }
    proof {
        lemma_first_satisfying(conditions@, p);
    }
    Err(CombatError::ConditionNotFound(wanted))
}

/// A script that sets a distance sets it for the target and for the one the
/// target fights, in that order.
pub fn on_combat_event_set_distance(target: u64, opponent: u64, distance: Distance) -> (r: Vec<(u64, Distance)>)
    ensures
        r@ == seq![(target, distance), (opponent, distance)],
{
    let r = vec![(target, distance), (opponent, distance)];
    r
}

} // verus!
