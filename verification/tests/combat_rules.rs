use kindara::combat::{
    attack, block, damage_dealt, dodge, fighters_of, find_condition, find_damage_kind, get_skill,
    get_target,
    on_combat_event_attack, on_combat_event_attempt_block, on_combat_event_attempt_dodge,
    on_combat_event_attempt_flee, on_combat_event_attempt_hit, on_combat_event_set_distance,
    on_hostile_death, on_player_death, regenerate, retreat, take_damage, total_resistance,
    update_attack_timer, update_cooldowns, use_skill, Approach, AttackReady,
    CharacterOrHostile, CombatError, CombatState, Condition, Cooldown, DamageKind, DefenseStep,
    Distance,
    Engagement, ExecutionPhase, Fighter, FleeOutcome, FollowUp, Mastery, NpcEntry, QueueChange,
    ResistanceEntry, Skill, SkillError, Stat, TargetError,
};
use kindara::combat_log::{
    actor_name, combat_log_actions, log_text, on_combat_event_combat_log, BlockedArgs,
    CombatLogArgs, CombatLogKind, ConditionArgs, DamagedArgs, LogField,
};
use kindara::depiction::Depiction;
use kindara::interact::Interaction;
use kindara::npc::{spawn_amount, timer_call, HostileSpawner, TimerCall};
use kindara::scripts::{scripts_to_run, ScriptEntry};

fn punch() -> Skill {
    Skill {
        id: "punch".to_string(),
        commands: vec!["punch".to_string(), "jab".to_string()],
        name: "Punch".to_string(),
        description: String::new(),
        cost: 5,
        cooldown: 0,
        approach: Approach::Front,
        distance: Distance::Near,
        scripts: vec![],
    }
}

fn kick() -> Skill {
    Skill {
        id: "kick".to_string(),
        commands: vec!["kick".to_string()],
        name: "Kick".to_string(),
        description: String::new(),
        cost: 10,
        cooldown: 4,
        approach: Approach::Front,
        distance: Distance::Far,
        scripts: vec![],
    }
}

fn brawler() -> Mastery {
    Mastery {
        id: "brawler".to_string(),
        name: "Brawler".to_string(),
        vitality: 1,
        stamina: 1,
        strength: 1,
        dexterity: 1,
        intelligence: 1,
        auto_attack: "punch".to_string(),
        skills: vec!["punch".to_string()],
    }
}

fn goat(attackable: bool, stats: bool) -> NpcEntry {
    NpcEntry {
        entity: 9,
        depiction: Depiction {
            name: "Goat".to_string(),
            short_name: "goat".to_string(),
            tags: vec![],
        },
        interactions: if attackable { Some(vec![Interaction::Attack]) } else { None },
        has_stats: stats,
    }
}

fn near(target: u64) -> CombatState {
    CombatState { target, distance: Distance::Near, approach: Approach::Front }
}

fn fighter() -> Fighter {
    Fighter {
        vigor: 20,
        mastery: "brawler".to_string(),
        cooldowns: vec![],
        in_combat: false,
        attack_timer: false,
        queued_attack: false,
    }
}

#[test]
fn attacks() {
    let npcs = vec![goat(true, true)];
    let r = use_skill(
        "punch",
        Some("goat"),
        &fighter(),
        &[punch(), kick()],
        &[brawler()],
        Some(&npcs),
    );
    assert_eq!(
        r.engage,
        Some(CombatState { target: 9, distance: Distance::Near, approach: Approach::Front })
    );
    assert_eq!(r.attack, Some(0));
    assert!(r.messages.is_empty());
    assert_eq!(r.queue, QueueChange::Unchanged);
}

#[test]
fn get_skill_valid() {
    let skills = vec![punch(), kick()];
    let masteries = vec![brawler()];
    let k = get_skill(&skills, &masteries, "brawler", "punch").unwrap();
    assert_eq!(skills[k].name, "Punch");
    assert_eq!(get_skill(&skills, &masteries, "brawler", "jab"), Ok(0));
}

#[test]
fn get_skill_invalid_mastery() {
    let skills = vec![punch(), kick()];
    let masteries = vec![brawler()];
    assert_eq!(get_skill(&skills, &masteries, "unknown", "punch"), Err(SkillError::Unknown));
}

#[test]
fn get_skill_invalid_skill() {
    let skills = vec![punch(), kick()];
    let masteries = vec![brawler()];
    assert_eq!(get_skill(&skills, &masteries, "brawler", "kick"), Err(SkillError::Unknown));
    assert_eq!(get_skill(&skills, &masteries, "brawler", "bite"), Err(SkillError::Unknown));
    assert_eq!(SkillError::Unknown.message(), "You don't know how to do that.");
}

#[test]
fn get_target_valid() {
    assert_eq!(get_target("goat", Some(&[goat(true, true)])), Ok(9));
}

#[test]
fn get_target_invalid() {
    assert_eq!(
        get_target("goat", Some(&[goat(false, true)])),
        Err(TargetError::Invalid("goat".to_string()))
    );
    assert_eq!(
        get_target("goat", Some(&[goat(true, false)])),
        Err(TargetError::Invalid("goat".to_string()))
    );
    assert_eq!(
        TargetError::Invalid("goat".to_string()).message(),
        "You can't attack the goat."
    );
}

#[test]
fn get_target_not_found() {
    assert_eq!(get_target("goat", Some(&[])), Err(TargetError::NotFound("goat".to_string())));
    assert_eq!(get_target("goat", None), Err(TargetError::NoTile));
    assert_eq!(TargetError::NoTile.message(), "You don't see anything here.");
    assert_eq!(
        TargetError::NotFound("goat".to_string()).message(),
        "You don't see a goat here."
    );
}

#[test]
fn skill_refusals() {
    let skills = vec![punch(), kick()];
    let masteries = vec![brawler()];
    let mut tired = fighter();
    tired.vigor = 4;
    let r = use_skill("punch", None, &tired, &skills, &masteries, None);
    assert_eq!(r.messages, vec!["You don't have enough vigor to use Punch.".to_string()]);
    assert_eq!(r.attack, None);

    let mut cooling = fighter();
    cooling.cooldowns = vec![Cooldown { skill: "punch".to_string(), remaining_secs: 12 }];
    let r = use_skill("punch", None, &cooling, &skills, &masteries, None);
    assert_eq!(r.messages, vec!["Punch is on cooldown for 12 seconds.".to_string()]);

    let r = use_skill("punch", None, &fighter(), &skills, &masteries, None);
    assert_eq!(r.messages, vec!["You are not in combat.".to_string()]);
    assert_eq!(r.attack, None);

    let r = use_skill("dance", None, &fighter(), &skills, &masteries, None);
    assert_eq!(r.messages, vec!["You don't know how to do that.".to_string()]);
}

#[test]
fn skill_during_recovery_waits() {
    let skills = vec![punch()];
    let masteries = vec![brawler()];
    let mut busy = fighter();
    busy.in_combat = true;
    busy.attack_timer = true;
    let r = use_skill("punch", None, &busy, &skills, &masteries, None);
    assert_eq!(r.messages, vec!["Attack queued.".to_string()]);
    assert_eq!(r.queue, QueueChange::Queued);
    assert_eq!(r.attack, Some(0));

    busy.queued_attack = true;
    let r = use_skill("punch", Some("rat"), &busy, &skills, &masteries, Some(&[]));
    assert_eq!(
        r.messages,
        vec!["Queued attack replaced.".to_string(), "You don't see a rat here.".to_string()]
    );
    assert_eq!(r.queue, QueueChange::Replaced);
    assert_eq!(r.attack, None);
}

#[test]
fn attack_command() {
    let skills = vec![kick(), punch()];
    let masteries = vec![brawler()];
    let npcs = vec![goat(true, true)];
    let r = attack(Some("goat"), false, "brawler", &skills, &masteries, Some(&npcs)).unwrap();
    assert_eq!(r.engage, Some(near(9)));
    assert_eq!(r.attack, Some(1));
    assert!(r.message.is_none());

    let r = attack(Some("goat"), true, "brawler", &skills, &masteries, Some(&npcs)).unwrap();
    assert_eq!(r.message.unwrap(), "You are already in combat.");

    let r = attack(None, false, "brawler", &skills, &masteries, Some(&npcs)).unwrap();
    assert!(r.message.is_none() && r.engage.is_none() && r.attack.is_none());

    assert!(matches!(
        attack(Some("goat"), false, "mage", &skills, &masteries, Some(&npcs)),
        Err(CombatError::MasteryNotFound(m)) if m == "mage"
    ));
    let mut missing = brawler();
    missing.auto_attack = "bite".to_string();
    assert!(matches!(
        attack(Some("goat"), false, "brawler", &skills, &[missing], Some(&npcs)),
        Err(CombatError::SkillNotFound(k)) if k == "bite"
    ));
}

#[test]
fn stances_and_retreat() {
    assert_eq!(block(false), (true, "You prepare to block.".to_string()));
    assert_eq!(
        dodge(true),
        (false, "You are not ready to dodge again.".to_string())
    );
    assert_eq!(retreat(true), (true, "You retreat from your target.".to_string()));
    assert_eq!(retreat(false), (false, "You are not in combat.".to_string()));
}

#[test]
fn attack_steps() {
    let c = on_combat_event_attack(7, &kick());
    assert_eq!(c.vigor, 0);
    assert_eq!(c.cooldown, Some(4));
    assert_eq!(
        c.follow_ups,
        vec![FollowUp::ExecuteScripts(ExecutionPhase::OnUse), FollowUp::AttemptHit]
    );
    let c = on_combat_event_attack(7, &punch());
    assert_eq!(c.vigor, 2);
    assert_eq!(c.cooldown, None);

    assert_eq!(
        on_combat_event_attempt_hit(Distance::Far, Distance::Near),
        FollowUp::ExecuteScripts(ExecutionPhase::OnMiss)
    );
    assert_eq!(on_combat_event_attempt_hit(Distance::Either, Distance::Near), FollowUp::AttemptDodge);
    assert_eq!(on_combat_event_attempt_hit(Distance::Near, Distance::Near), FollowUp::AttemptDodge);

    assert_eq!(on_combat_event_attempt_dodge(true, true, true, true), DefenseStep::Halted);
    assert_eq!(
        on_combat_event_attempt_dodge(false, true, true, true),
        DefenseStep::Avoided { scripts: Some(ExecutionPhase::OnDodge), spend_stance: true }
    );
    assert_eq!(
        on_combat_event_attempt_dodge(false, false, true, false),
        DefenseStep::Through(FollowUp::AttemptBlock)
    );
    assert_eq!(
        on_combat_event_attempt_block(false, true, false, false),
        DefenseStep::Avoided { scripts: None, spend_stance: false }
    );
    assert_eq!(
        on_combat_event_attempt_block(false, false, true, false),
        DefenseStep::Through(FollowUp::ExecuteScripts(ExecutionPhase::OnHit))
    );

    assert!(matches!(on_combat_event_attempt_flee(true, true), FleeOutcome::NotReady(t) if t == "You are not ready to flee again."));
    assert!(matches!(on_combat_event_attempt_flee(false, true), FleeOutcome::Fled));
    assert!(matches!(on_combat_event_attempt_flee(false, false), FleeOutcome::Failed(t) if t == "You failed to get away."));
}

#[test]
fn damage_and_recovery() {
    assert_eq!(damage_dealt(10, None, 0), 10);
    assert_eq!(damage_dealt(10, Some(5), 0), 15);
    assert_eq!(damage_dealt(10, Some(5), 1), 0);
    assert_eq!(take_damage(8, 15), 0);
    assert_eq!(take_damage(20, 15), 5);
    assert_eq!(regenerate(90, 15, 100), 100);
    assert_eq!(regenerate(50, 15, 100), 65);

    let resistances = vec![
        ResistanceEntry { resistance: "armor".to_string(), amount: 3 },
        ResistanceEntry { resistance: "fire".to_string(), amount: 4 },
        ResistanceEntry { resistance: "frost".to_string(), amount: 5 },
    ];
    let frost = DamageKind {
        id: "frost".to_string(),
        name: "Frost".to_string(),
        description: String::new(),
        resistances: vec!["armor".to_string(), "frost".to_string()],
    };
    assert_eq!(total_resistance(&resistances, &frost), 8);
    let pure = DamageKind {
        id: "pure".to_string(),
        name: "Pure".to_string(),
        description: String::new(),
        resistances: vec![],
    };
    assert_eq!(total_resistance(&resistances, &pure), 0);
    let kinds = vec![pure, frost];
    assert_eq!(find_damage_kind(&kinds, "frost"), Ok(1));
    assert_eq!(
        find_damage_kind(&kinds, "fire"),
        Err(CombatError::DamageKindNotFound("fire".to_string()))
    );
}

#[test]
fn timers_and_deaths() {
    assert_eq!(update_attack_timer(true, true), AttackReady::ReplayQueued);
    assert_eq!(
        update_attack_timer(false, true),
        AttackReady::Notify("You are ready to attack again.".to_string())
    );
    assert_eq!(update_attack_timer(false, false), AttackReady::Nothing);

    assert_eq!(update_cooldowns(&[punch(), kick()], "kick"), Ok("Kick is ready.".to_string()));
    assert!(update_cooldowns(&[punch()], "kick").is_err());


    let fights = vec![
        Engagement { fighter: 1, state: near(9) },
        Engagement { fighter: 2, state: near(8) },
        Engagement { fighter: 3, state: near(9) },
    ];
    assert_eq!(fighters_of(&fights, 9), vec![1, 3]);

}

#[test]
fn on_npc_death_alerts_neighbors() {
    assert_eq!(on_hostile_death("Goat", 0), Some("Goat has died.".to_string()));
    assert_eq!(on_hostile_death("Goat", 3), None);
}

#[test]
fn on_player_death_resets_state() {
    let d = on_player_death(0, 120, None).unwrap();
    assert_eq!(d.text, "You have died.");
    assert_eq!(d.health, 120);
    assert_eq!(d.teleport, None);
    assert!(on_player_death(5, 120, None).is_none());
}

#[test]
fn on_player_death_teleports_player() {
    let d = on_player_death(0, 120, Some(77)).unwrap();
    assert_eq!(d.teleport, Some(77));
}

#[test]
fn names_of_the_vocabulary() {
    assert_eq!(Distance::Near.name(), "near");
    assert_eq!(Distance::Either.name(), "either");
    assert_eq!(Approach::Rear.name(), "rear");
    assert_eq!(ExecutionPhase::OnDodge.name(), "on_dodge");
    assert_eq!(Stat::CritStrikeDamage.name(), "CritStrikeDamage");
    let all = Stat::all();
    assert_eq!(all.len(), 17);
    assert_eq!(all[0], Stat::Vitality);
    assert_eq!(all[16], Stat::CritStrikeDamage);
}

#[test]
fn combat_log_lines() {
    assert_eq!(actor_name(Some("Bres"), Some("x")), "<fg.player>Bres</>");
    assert_eq!(actor_name(None, Some("Goat")), "<fg.hostile>Goat</>");
    assert_eq!(actor_name(None, None), "Unknown");

    let used = CombatLogKind::Used { message: "butts you".to_string() };
    assert_eq!(
        on_combat_event_combat_log(None, Some("Goat"), &used),
        "<<fg.hostile>Goat</>> butts you"
    );
    assert_eq!(
        on_combat_event_combat_log(Some("Bres"), None, &used),
        "<<fg.player>Bres</>> butts you"
    );
    let missed = CombatLogKind::Missed { message: "m".to_string() };
    assert_eq!(log_text("N", &missed), "<N /> m");
    let blocked = CombatLogKind::Blocked { message: "m".to_string(), damage: Some(3) };
    assert_eq!(log_text("N", &blocked), "<N <fg.red>3d</> ~> m");
    let dodged = CombatLogKind::Dodged { message: "m".to_string() };
    assert_eq!(log_text("N", &dodged), "<N ~> m");
    let damaged = CombatLogKind::Damaged {
        message: "ouch".to_string(),
        damage: 12,
        kind: "fire_damage".to_string(),
        crit: true,
    };
    assert_eq!(log_text("N", &damaged), "<N <fg.red>12d</>!, <fg.yellow>Fire Damage</>> ouch");
    let applied = CombatLogKind::ConditionApplied {
        message: "m".to_string(),
        condition: "stunned".to_string(),
    };
    assert_eq!(log_text("N", &applied), "<N <fg.yellow>+stunned+</>> m");
    let removed = CombatLogKind::ConditionRemoved {
        message: "m".to_string(),
        condition: "stunned".to_string(),
    };
    assert_eq!(log_text("N", &removed), "<N <fg.yellow>-stunned-</>> m");
}

fn no_args() -> CombatLogArgs {
    CombatLogArgs {
        used: LogField::Absent,
        missed: LogField::Absent,
        dodged: LogField::Absent,
        blocked: LogField::Absent,
        damaged: LogField::Absent,
        condition_applied: LogField::Absent,
        condition_removed: LogField::Absent,
    }
}

#[test]
fn script_log_requests() {
    let mut args = no_args();
    args.damaged = LogField::Given(DamagedArgs {
        message: "hit".to_string(),
        damage: -1,
        kind: "physical".to_string(),
        crit: false,
    });
    args.used = LogField::Given("swings".to_string());
    args.blocked = LogField::Given(BlockedArgs { message: "b".to_string(), damage: None });
    let (logs, ok) = combat_log_actions(1, 2, args);
    assert!(ok);
    assert_eq!(logs.len(), 3);
    assert_eq!(logs[0].kind, CombatLogKind::Used { message: "swings".to_string() });
    assert_eq!(logs[1].kind, CombatLogKind::Blocked { message: "b".to_string(), damage: None });
    assert_eq!(
        logs[2].kind,
        CombatLogKind::Damaged {
            message: "hit".to_string(),
            damage: u32::MAX,
            kind: "physical".to_string(),
            crit: false
        }
    );
    assert!(logs.iter().all(|l| l.source == 1 && l.target == 2));

    let mut args = no_args();
    args.used = LogField::Given("swings".to_string());
    args.dodged = LogField::Unreadable;
    args.condition_applied = LogField::Given(ConditionArgs {
        message: "m".to_string(),
        condition: "c".to_string(),
    });
    let (logs, ok) = combat_log_actions(1, 2, args);
    assert!(!ok);
    assert_eq!(logs.len(), 1);
}

#[test]
fn spawners() {
    let mut s = HostileSpawner {
        hostiles: ("goat".to_string(), 1, 3),
        spawned: vec![],
        initial_spawn: false,
    };
    for _ in 0..20 {
        let n = spawn_amount(&s).unwrap();
        assert!((1..=3).contains(&n));
    }
    s.spawned = vec![1, 2, 3];
    assert_eq!(spawn_amount(&s), None);
    assert_eq!(timer_call(true, true, false), TimerCall::Spawn);
    assert_eq!(timer_call(true, false, true), TimerCall::Nothing);
    assert_eq!(timer_call(false, false, true), TimerCall::StartTimer);
    assert_eq!(timer_call(false, false, false), TimerCall::Nothing);
}

#[test]
fn automatic_attacks_and_conditions() {
    let skills = vec![kick(), punch()];
    let masteries = vec![brawler()];
    assert_eq!(
        (CharacterOrHostile::Character { mastery: "brawler".to_string() }).get_auto_attack(&skills, &masteries),
        Ok(1)
    );
    assert_eq!(
        (CharacterOrHostile::Hostile { auto_attack: "kick".to_string() }).get_auto_attack(&skills, &masteries),
        Ok(0)
    );
    assert!((CharacterOrHostile::Character { mastery: "mage".to_string() }).get_auto_attack(&skills, &masteries).is_err());
    assert!((CharacterOrHostile::Hostile { auto_attack: "bite".to_string() }).get_auto_attack(&skills, &masteries).is_err());
    assert_eq!((CharacterOrHostile::Neither).get_auto_attack(&skills, &masteries), Err(CombatError::NotAFighter));

    let conditions = vec![Condition {
        id: "stunned".to_string(),
        name: "Stunned".to_string(),
        description: String::new(),
        scripts: vec![],
    }];
    assert_eq!(find_condition(&conditions, "stunned"), Ok(0));
    assert_eq!(
        find_condition(&conditions, "slowed"),
        Err(CombatError::ConditionNotFound("slowed".to_string()))
    );
    assert_eq!(on_combat_event_set_distance(3, 4, Distance::Far), vec![(3, Distance::Far), (4, Distance::Far)]);
}

#[test]
fn scripts_run_until_one_is_missing() {
    let library = vec![
        ScriptEntry { name: "punch".to_string(), source: "return {}".to_string() },
        ScriptEntry { name: "bleed".to_string(), source: "return {}".to_string() },
    ];
    let keys = vec!["bleed".to_string(), "punch".to_string()];
    assert_eq!(scripts_to_run(&library, &keys), (vec![1, 0], true));
    let keys = vec!["punch".to_string(), "ghost".to_string(), "bleed".to_string()];
    assert_eq!(scripts_to_run(&library, &keys), (vec![0], false));
}

#[test]
fn hits_are_rolled() {
    for _ in 0..50 {
        let h = kindara::rolls::roll_hit();
        assert!(h == kindara::rolls::HitResponse::Hit || h == kindara::rolls::HitResponse::Missed);
        let (q, d, r) = kindara::rolls::roll_hit_totals();
        assert!((2..=20).contains(&q) && (1..=10).contains(&d));
        assert_eq!(r, kindara::rolls::hit_response(q, d));
    }
    assert_eq!(kindara::rolls::hit_response(5, 6), kindara::rolls::HitResponse::Missed);
    assert_eq!(kindara::rolls::hit_response(6, 6), kindara::rolls::HitResponse::Hit);
}

fn damage_event(resolved: bool, target: usize, damage: u32, with_callback: bool) -> kindara::combat::DamageEvent {
    kindara::combat::DamageEvent { resolved, target, damage, with_callback }
}

#[test]
fn damage_step_applies_events_in_order() {
    let mut healths = vec![20u32, 8];
    let events = [
        damage_event(true, 0, 15, true),
        damage_event(true, 1, 15, false),
        damage_event(true, 0, 3, true),
    ];
    let step = kindara::combat::apply_damage(&mut healths, &events);
    assert_eq!(healths, vec![2, 0]);
    assert_eq!(step.callbacks, vec![0, 2]);
    assert_eq!(step.fault, None);
}

#[test]
fn damage_step_with_unresolved_event_changes_nothing() {
    let mut healths = vec![20u32, 8];
    let events = [damage_event(true, 0, 15, true), damage_event(false, 1, 5, true)];
    let step = kindara::combat::apply_damage(&mut healths, &events);
    assert_eq!(healths, vec![20, 8]);
    assert!(step.callbacks.is_empty());
    assert_eq!(step.fault, Some(kindara::combat::DamageFault::Unresolved(1)));
}

#[test]
fn damage_step_stops_at_missing_target() {
    let mut healths = vec![20u32];
    let events = [
        damage_event(true, 0, 5, true),
        damage_event(true, 3, 5, true),
        damage_event(true, 0, 5, true),
    ];
    let step = kindara::combat::apply_damage(&mut healths, &events);
    assert_eq!(healths, vec![15]);
    assert_eq!(step.callbacks, vec![0]);
    assert_eq!(step.fault, Some(kindara::combat::DamageFault::MissingTarget(1)));
}
