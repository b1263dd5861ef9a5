use kindara::depiction::Depiction;
use kindara::interact::{
    execute_examine, execute_interaction, ExamineOutcome, Interactable, Interaction,
    InteractionError, MenuAction, TargetError,
};
use kindara::phrase::item_name_list;
use kindara::session::{
    connection_greeting, quit, record_departure, roll, QuitOutcome, RollOutcome,
};
use kindara::world::WorldStateCharacter;

fn rock() -> Interactable {
    Interactable {
        entity: 5,
        depiction: Depiction {
            name: "Rock".to_string(),
            short_name: "rock".to_string(),
            tags: vec![],
        },
        interactions: Some(vec![Interaction::Take]),
    }
}

#[test]
fn lists_interactions() {
    let things = vec![rock()];
    let r = execute_examine("rock", &things);
    assert_eq!(
        r,
        Ok(ExamineOutcome::Menu {
            entity: 5,
            text: "After thorough inspection, you find you are able to do the following:\n\n[1] Take\n\nType \"quit\" to leave menu.".to_string()
        })
    );
}

#[test]
fn performs_interaction() {
    let things = vec![rock()];
    let entity = match execute_examine("rock", &things) {
        Ok(ExamineOutcome::Menu { entity, .. }) => entity,
        other => panic!("unexpected {:?}", other),
    };
    assert_eq!(entity, 5);
    let r = execute_interaction("1", things[0].interactions.as_ref().unwrap(), "rock");
    assert_eq!(r, Ok(MenuAction::Take("rock".to_string())));
}

#[test]
fn examine_edge_cases() {
    let mut bare = rock();
    bare.interactions = None;
    assert_eq!(
        execute_examine("rock", &[bare]),
        Ok(ExamineOutcome::NoInteractions("Rock has no interactions.".to_string()))
    );
    assert_eq!(
        execute_examine("tree", &[rock()]),
        Err(TargetError::NotFound("tree".to_string()))
    );
}

#[test]
fn menu_choices_are_checked() {
    let offered = vec![Interaction::Place, Interaction::Sit, Interaction::Attack];
    assert_eq!(
        execute_interaction("1", &offered, "bench"),
        Ok(MenuAction::Sit("bench".to_string()))
    );
    assert_eq!(execute_interaction("2", &offered, "bench"), Ok(MenuAction::Nothing));
    let e = execute_interaction("3", &offered, "bench").unwrap_err();
    assert_eq!(e, InteractionError::InvalidOption("3".to_string()));
    assert_eq!(e.message(), "\"3\" is not a valid option.");
    assert!(execute_interaction("one", &offered, "bench").is_err());
}

#[test]
fn greeting_and_quitting() {
    let g = connection_greeting();
    assert_eq!(g.commands, vec![vec![255, 251, 201], vec![255, 253, 31]]);
    assert_eq!(
        g.text,
        "Thou hast arrived in Kindara, wanderer. What name dost thou bear?"
    );
    assert_eq!(quit(true), QuitOutcome::LeaveMenu);
    assert_eq!(quit(false), QuitOutcome::Farewell("Farewell.".to_string()));
}

#[test]
fn departure_is_recorded_only_when_known() {
    let mut world: Vec<WorldStateCharacter> = Vec::new();
    assert!(!record_departure(&mut world, 1, None, Some(vec![])));
    assert!(world.is_empty());
    assert!(record_departure(
        &mut world,
        1,
        Some("Gate".to_string()),
        Some(vec!["stick".to_string()])
    ));
    assert_eq!(world.len(), 1);
    assert_eq!(world[0].id, 1);
    assert_eq!(world[0].tile, "Gate");
}

#[test]
fn roll_texts() {
    assert_eq!(
        roll("Bres", "2d6", &RollOutcome::Rolled("7".to_string())),
        (true, "Bres rolled 2d6 with a result of 7.".to_string())
    );
    assert_eq!(
        roll("Bres", "2d6", &RollOutcome::Failed),
        (false, "Roll failed.".to_string())
    );
    assert_eq!(
        roll("Bres", "x", &RollOutcome::InvalidSyntax),
        (false, "Invalid roll syntax.".to_string())
    );
}

#[test]
fn name_lists_ignore_order() {
    let a: Vec<String> = ["stick", "rock", "stick", "apple"].iter().map(|s| s.to_string()).collect();
    let b: Vec<String> = ["apple", "stick", "stick", "rock"].iter().map(|s| s.to_string()).collect();
    assert_eq!(item_name_list(&a), item_name_list(&b));
    assert_eq!(item_name_list(&a), "2 sticks, a rock, and an apple");
    assert_eq!(item_name_list(&[]), "");
    assert_eq!(item_name_list(&["owl".to_string()]), "an owl");
    assert_eq!(
        item_name_list(&["owl".to_string(), "bat".to_string()]),
        "a bat and an owl"
    );
}
