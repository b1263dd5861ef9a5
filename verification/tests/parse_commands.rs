use kindara::command::{Command, ParseError};
use kindara::parse::{
    handle_attack, handle_drop, handle_examine, handle_inventory, handle_place, handle_retreat,
    handle_roll, handle_take, handle_use_skill, parse_command,
};

#[test]
fn drop_parses() {
    let object = handle_drop("drop rock");
    assert_eq!(object, Ok(Command::Drop(("rock".into(), false))));

    let all = handle_drop("drop all rock");
    assert_eq!(all, Ok(Command::Drop(("rock".into(), true))));

    let no_object = handle_drop("drop");
    assert_eq!(
        no_object,
        Err(ParseError::InvalidArguments("Drop what?".into()))
    );
}

#[test]
fn take_parses() {
    let object = handle_take("take rock");
    assert_eq!(object, Ok(Command::Take(("rock".into(), false, None))));

    let all = handle_take("take all rock");
    assert_eq!(all, Ok(Command::Take(("rock".into(), true, None))));

    let object_and_target = handle_take("take rock from pile");
    assert_eq!(
        object_and_target,
        Ok(Command::Take(("rock".into(), false, Some("pile".into()))))
    );

    let no_object = handle_take("take");
    assert_eq!(
        no_object,
        Err(ParseError::InvalidArguments("Take what?".into()))
    );
}

#[test]
fn place_parses() {
    let object = handle_place("place rock in pile");
    assert_eq!(object, Ok(Command::Place(("rock".into(), "pile".into()))));

    let no_object = handle_place("place");
    assert_eq!(
        no_object,
        Err(ParseError::InvalidArguments("Place what?".into()))
    );

    let no_target = handle_place("place rock");
    assert_eq!(
        no_target,
        Err(ParseError::InvalidArguments("Place where?".into()))
    );
}

#[test]
fn examine_parses() {
    let target = handle_examine("examine rock");
    assert_eq!(target, Ok(Command::Examine("rock".into())));

    let no_target = handle_examine("examine");
    assert_eq!(
        no_target,
        Err(ParseError::InvalidArguments("Examine what?".into()))
    );
}

#[test]
fn use_skill_parses() {
    assert_eq!(
        handle_use_skill("fireball goat"),
        Ok(Command::UseSkill(("fireball".into(), Some("goat".into()))))
    );
    assert_eq!(
        handle_use_skill("fireball"),
        Ok(Command::UseSkill(("fireball".into(), None)))
    );
}

#[test]
fn drop_all_alone_asks_what() {
    assert_eq!(
        handle_drop("drop all"),
        Err(ParseError::InvalidArguments("Drop what?".into()))
    );
    assert_eq!(handle_drop("drop allrock"), Ok(Command::Drop(("allrock".into(), false))));
    assert_eq!(handle_drop("dropper"), Err(ParseError::WrongCommand));
    assert_eq!(handle_drop("drop rock\nx"), Err(ParseError::WrongCommand));
}

#[test]
fn take_all_alone_asks_what() {
    assert_eq!(
        handle_take("get all"),
        Err(ParseError::InvalidArguments("Take what?".into()))
    );
    assert_eq!(
        handle_take("get all plate from Table"),
        Ok(Command::Take(("plate".into(), true, Some("table".into()))))
    );
    assert_eq!(
        handle_take("take rock pile"),
        Ok(Command::Take(("rock".into(), false, Some("pile".into()))))
    );
}

#[test]
fn place_variants() {
    assert_eq!(
        handle_place("place plate on table"),
        Ok(Command::Place(("plate".into(), "table".into())))
    );
    assert_eq!(
        handle_place("place plate against wall"),
        Ok(Command::Place(("plate".into(), "wall".into())))
    );
    assert_eq!(
        handle_place("place plate on"),
        Err(ParseError::InvalidArguments("Place where?".into()))
    );
}

#[test]
fn attack_parses() {
    assert_eq!(handle_attack("attack Goat"), Ok(Command::Attack(Some("goat".into()))));
    assert_eq!(handle_attack("atk"), Ok(Command::Attack(None)));
    assert_eq!(handle_attack("a  rat "), Ok(Command::Attack(Some("rat".into()))));
    assert_eq!(handle_attack("ax"), Err(ParseError::WrongCommand));
}

#[test]
fn roll_and_retreat_parse() {
    assert_eq!(handle_roll("roll 2d6"), Ok(Command::Roll("2d6".into())));
    assert_eq!(handle_roll("#1d20"), Ok(Command::Roll("1d20".into())));
    assert_eq!(
        handle_roll("roll"),
        Err(ParseError::InvalidArguments("Roll what?".into()))
    );
    assert_eq!(handle_retreat("ret"), Ok(Command::Retreat));
    assert_eq!(handle_retreat("ferret"), Ok(Command::Retreat));
    assert_eq!(handle_retreat("retire"), Err(ParseError::WrongCommand));
    assert_eq!(handle_inventory("inv"), Ok(Command::Inventory));
    assert_eq!(handle_inventory("invent"), Err(ParseError::WrongCommand));
}

#[test]
fn readers_are_tried_in_order() {
    assert_eq!(parse_command("i", false), Ok(Command::Inventory));
    assert_eq!(
        parse_command("punch goat", false),
        Ok(Command::UseSkill(("punch".into(), Some("goat".into()))))
    );
    assert_eq!(parse_command("quit", true), Ok(Command::Quit));
    assert_eq!(parse_command("1", true), Ok(Command::Menu("1".into())));
    assert_eq!(parse_command("a\nb", true), Err(ParseError::UnknownCommand));
    assert_eq!(
        parse_command("examine", false),
        Err(ParseError::InvalidArguments("Examine what?".into()))
    );
}

#[test]
fn unwritten_readers_refuse_their_lines() {
    assert_eq!(parse_command("look", false), Err(ParseError::UnknownCommand));
    assert_eq!(parse_command("look rock", false), Err(ParseError::UnknownCommand));
    assert_eq!(parse_command("say hello there", false), Err(ParseError::UnknownCommand));
    assert_eq!(parse_command("n", false), Err(ParseError::UnknownCommand));
    assert_eq!(parse_command("who", false), Err(ParseError::UnknownCommand));
    assert_eq!(parse_command("chat hi", false), Err(ParseError::UnknownCommand));
    // Readers that come first still take their lines.
    assert_eq!(parse_command("attack goat", false), Ok(Command::Attack(Some("goat".into()))));
    // A word that only starts like a command is not claimed.
    assert_eq!(
        parse_command("looking", false),
        Ok(Command::UseSkill(("looking".into(), None)))
    );
    // In a menu the unwritten readers are not tried.
    assert_eq!(parse_command("look", true), Ok(Command::Menu("look".into())));
}
