use kindara::auth::{
    authenticate, check_credentials, handle_authenticate_task, name_is_valid, password_is_valid,
    handle_user_exists_task, AuthAction, AuthState, Authenticating, CharacterRecord, Credentials,
    LoginOutcome, OnlineCharacter, TileEntry, ECHO, IAC, WILL, WONT,
};
use kindara::command::Command;
use kindara::keycard::{Keycard, ANNOUNCE, SHUTDOWN, TELEPORT};
use kindara::models::Role;
use kindara::world::{find_saved, record_character, WorldStateCharacter};

#[test]
fn admin_keycard() {
    let keycard = Keycard::admin();

    assert!(keycard.can(SHUTDOWN));
    assert!(keycard.can(ANNOUNCE));
    assert!(keycard.can(TELEPORT));
}

#[test]
fn player_keycard() {
    let keycard = Keycard::player();

    assert!(!keycard.can(SHUTDOWN));
    assert!(!keycard.can(ANNOUNCE));
    assert!(!keycard.can(TELEPORT));
}

#[test]
fn is_name_valid() {
    assert!(name_is_valid("Caesar").is_ok());
    assert!(name_is_valid("Caesar Augustus").is_ok());
    assert!(name_is_valid("Caesar   Augustus").is_err());
    assert!(name_is_valid("Caesar Octavian Augustus").is_err());
    assert!(name_is_valid("shit god").is_err());
    assert!(name_is_valid("admin").is_err());
}

#[test]
fn is_password_valid() {
    assert!(password_is_valid("no").is_err());
    assert!(password_is_valid("hippopotomonstrosesquippedaliophobia").is_err());
    assert!(password_is_valid("password").is_ok());
}

#[test]
fn name_errors_say_why() {
    assert_eq!(
        name_is_valid("Al"),
        Err("Name must be between 3 and 25 characters.")
    );
    assert_eq!(
        name_is_valid("Abcdefghijklmnopqrstuvwxyz"),
        Err("Name must be between 3 and 25 characters.")
    );
    assert_eq!(
        name_is_valid("R2D2"),
        Err("Name can only contain letters and spaces.")
    );
    assert_eq!(
        name_is_valid(" Caesar"),
        Err("Name can only contain letters and spaces.")
    );
    assert_eq!(
        name_is_valid("Caesar "),
        Err("Name can only contain letters and spaces.")
    );
    assert_eq!(name_is_valid("Moderator"), Err("Name contains banned words."));
    assert_eq!(name_is_valid("Ad Min"), Err("Name contains banned words."));
    assert_eq!(name_is_valid("Gode\u{a0}Frey"), Err("Name contains banned words."));
    assert_eq!(name_is_valid("Caesar\tAugustus"), Ok(()));
    // Two bytes per letter: twelve letters are 24 bytes, thirteen are 26.
    assert!(name_is_valid("éééééééééééé").is_err());
    assert_eq!(
        name_is_valid("ééééééééééééé"),
        Err("Name must be between 3 and 25 characters.")
    );
}

#[test]
fn password_bounds_are_bytes() {
    assert_eq!(password_is_valid("abc"), Ok(()));
    assert_eq!(password_is_valid(&"x".repeat(30)), Ok(()));
    assert_eq!(
        password_is_valid(&"x".repeat(31)),
        Err("Password must be between 3 and 30 characters.")
    );
    assert_eq!(
        password_is_valid("é"),
        Err("Password must be between 3 and 30 characters.")
    );
    assert_eq!(password_is_valid("éa"), Ok(()));
}

#[test]
fn new_character() {
    let mut auth = Authenticating::default();
    assert_eq!(auth.state, AuthState::Name);
    assert_eq!(auth.name, "");

    match authenticate(&mut auth, "R2D2") {
        AuthAction::Reply(t) => {
            assert_eq!(t, "<fg.red>Name can only contain letters and spaces.</>")
        }
        _ => panic!("expected a reply"),
    }
    assert_eq!(auth.state, AuthState::Name);

    match authenticate(&mut auth, "Icauna") {
        AuthAction::LookUpName(n) => assert_eq!(n, "Icauna"),
        _ => panic!("expected a lookup"),
    }
    assert_eq!(auth.state, AuthState::AwaitingTaskCompletion);
    assert_eq!(auth.name, "Icauna");

    assert!(matches!(authenticate(&mut auth, "anything"), AuthAction::Ignore));

    let (command, text) = handle_user_exists_task(&mut auth, false);
    assert_eq!(command, vec![IAC, WILL, ECHO]);
    assert_eq!(text, "Hail, Icauna. Set for yourself a word of secrecy.");
    assert_eq!(auth.state, AuthState::Password);

    match authenticate(&mut auth, "no") {
        AuthAction::Reply(t) => {
            assert_eq!(t, "<fg.red>Password must be between 3 and 30 characters.</>")
        }
        _ => panic!("expected a reply"),
    }
    match authenticate(&mut auth, "secret") {
        AuthAction::CheckPassword { name, password } => {
            assert_eq!(name, "Icauna");
            assert_eq!(password, "secret");
        }
        _ => panic!("expected a password check"),
    }
    assert_eq!(auth.state, AuthState::AwaitingTaskCompletion);

    // No character has the name: one is registered with the password.
    let hash = match check_credentials("secret", None) {
        Credentials::Register(h) => h,
        _ => panic!("hashing failed"),
    };
    assert!(matches!(check_credentials("secret", Some(&hash)), Credentials::Accepted));
    let c = CharacterRecord { id: 1, name: "Icauna".to_string(), role: Role::Player };
    match handle_authenticate_task(&mut auth, Some(c), &[], &[], &[], Some(1)) {
        LoginOutcome::Admitted(a) => {
            assert_eq!(a.echo, vec![IAC, WONT, ECHO]);
            assert_eq!(a.welcome, "May your journey here be prosperous.");
            assert!(a.arrival.is_some());
        }
        _ => panic!("expected admission"),
    }
}

#[test]
fn existing_character() {
    let mut auth = Authenticating {
        state: AuthState::AwaitingTaskCompletion,
        name: "Bres".to_string(),
    };
    let (command, text) = handle_user_exists_task(&mut auth, true);
    assert_eq!(command, vec![IAC, WILL, ECHO]);
    assert_eq!(text, "Hail, Bres! What is the secret word you keep?");

    let stored = match check_credentials("secret", None) {
        Credentials::Register(h) => h,
        _ => panic!("hashing failed"),
    };
    match authenticate(&mut auth, "secret") {
        AuthAction::CheckPassword { name, password } => {
            assert_eq!(name, "Bres");
            assert!(matches!(
                check_credentials(&password, Some(&stored)),
                Credentials::Accepted
            ));
        }
        _ => panic!("expected a password check"),
    }
    let c = CharacterRecord { id: 2, name: "Bres".to_string(), role: Role::Player };
    match handle_authenticate_task(&mut auth, Some(c), &[], &[], &[], Some(1)) {
        LoginOutcome::Admitted(a) => {
            assert_eq!(a.echo, vec![IAC, WONT, ECHO]);
            assert_eq!(a.welcome, "May your journey here be prosperous.");
        }
        _ => panic!("expected admission"),
    }
}

#[test]
fn registered_password_is_accepted_later() {
    let hash = match check_credentials("secret", None) {
        Credentials::Register(h) => h,
        _ => panic!("hashing failed"),
    };
    assert_ne!(hash, "secret");
    assert!(matches!(
        check_credentials("secret", Some(&hash)),
        Credentials::Accepted
    ));
    assert!(matches!(
        check_credentials("wrong", Some(&hash)),
        Credentials::Rejected
    ));
    assert!(matches!(
        check_credentials("secret", Some("not a hash")),
        Credentials::Rejected
    ));
}

#[test]
fn wrong_password() {
    let mut auth = Authenticating {
        state: AuthState::AwaitingTaskCompletion,
        name: "Bres".to_string(),
    };
    let (_, text) = handle_user_exists_task(&mut auth, true);
    assert_eq!(text, "Hail, Bres! What is the secret word you keep?");
    let stored = match check_credentials("secret", None) {
        Credentials::Register(h) => h,
        _ => panic!("hashing failed"),
    };
    assert!(matches!(authenticate(&mut auth, "wrong"), AuthAction::CheckPassword { .. }));
    assert!(matches!(check_credentials("wrong", Some(&stored)), Credentials::Rejected));
    let r = handle_authenticate_task(&mut auth, None, &[], &[], &[], Some(1));
    match r {
        LoginOutcome::Refused(t) => {
            assert_eq!(t, "The secret word you have given is not the right one.")
        }
        _ => panic!("expected a refusal"),
    }
    assert_eq!(auth.state, AuthState::Password);
}

#[test]
fn new_character_enters_at_spawn() {
    let mut auth = Authenticating {
        state: AuthState::AwaitingTaskCompletion,
        name: "Icauna".to_string(),
    };
    let c = CharacterRecord { id: 7, name: "Icauna".to_string(), role: Role::Player };
    let r = handle_authenticate_task(&mut auth, Some(c), &[], &[], &[], Some(100));
    match r {
        LoginOutcome::Admitted(a) => {
            assert_eq!(a.welcome, "May your journey here be prosperous.");
            assert_eq!(a.echo, vec![IAC, WONT, ECHO]);
            assert_eq!(a.proxy, Command::Look(None));
            assert_eq!(a.displaced, None);
            assert!(a.notice.is_none());
            assert!(!a.keycard.can(SHUTDOWN));
            let arrival = a.arrival.unwrap();
            assert_eq!(arrival.tile, 100);
            assert!(arrival.inventory.is_empty());
        }
        _ => panic!("expected admission"),
    }
}

#[test]
fn returning_character_comes_back() {
    let mut world: Vec<WorldStateCharacter> = Vec::new();
    record_character(
        &mut world,
        WorldStateCharacter {
            id: 3,
            tile: "Old Road (Prototype)".to_string(),
            inventory: vec!["stick (Prototype)".to_string(), "rock".to_string()],
        },
    );
    record_character(
        &mut world,
        WorldStateCharacter { id: 4, tile: "Gate".to_string(), inventory: vec![] },
    );
    assert_eq!(find_saved(&world, 3), Some(0));
    assert_eq!(find_saved(&world, 4), Some(1));
    assert_eq!(find_saved(&world, 5), None);

    let tiles = vec![
        TileEntry { entity: 10, name: "Gate".to_string() },
        TileEntry { entity: 11, name: "Old Road".to_string() },
    ];
    let online = vec![OnlineCharacter { client: 42, character: 3 }];
    let mut auth = Authenticating {
        state: AuthState::AwaitingTaskCompletion,
        name: "Bres".to_string(),
    };
    let c = CharacterRecord { id: 3, name: "Bres".to_string(), role: Role::Admin };
    match handle_authenticate_task(&mut auth, Some(c), &online, &world, &tiles, Some(10)) {
        LoginOutcome::Admitted(a) => {
            assert_eq!(a.displaced, Some(42));
            assert_eq!(
                a.notice.unwrap(),
                "<fg.player>Bres</> is already online and will be disconnected."
            );
            assert!(a.keycard.can(SHUTDOWN));
            let arrival = a.arrival.unwrap();
            assert_eq!(arrival.tile, 11);
            assert_eq!(arrival.inventory, vec!["stick".to_string(), "rock".to_string()]);
        }
        _ => panic!("expected admission"),
    }
}

#[test]
fn vanished_tile_means_spawn_and_no_spawn_means_no_entry() {
    let world = vec![WorldStateCharacter {
        id: 3,
        tile: "Lost Hall".to_string(),
        inventory: vec![],
    }];
    let tiles = vec![TileEntry { entity: 10, name: "Gate".to_string() }];
    let mut auth = Authenticating::default();
    let c = CharacterRecord { id: 3, name: "Bres".to_string(), role: Role::Player };
    match handle_authenticate_task(&mut auth, Some(c), &[], &world, &tiles, Some(10)) {
        LoginOutcome::Admitted(a) => assert_eq!(a.arrival.unwrap().tile, 10),
        _ => panic!("expected admission"),
    }
    let c = CharacterRecord { id: 3, name: "Bres".to_string(), role: Role::Player };
    match handle_authenticate_task(&mut auth, Some(c), &[], &world, &tiles, None) {
        LoginOutcome::Admitted(a) => assert!(a.arrival.is_none()),
        _ => panic!("expected admission"),
    }
}

#[test]
fn recording_replaces_earlier_state() {
    let mut world: Vec<WorldStateCharacter> = Vec::new();
    record_character(
        &mut world,
        WorldStateCharacter { id: 3, tile: "A".to_string(), inventory: vec![] },
    );
    record_character(
        &mut world,
        WorldStateCharacter { id: 3, tile: "B".to_string(), inventory: vec!["x".to_string()] },
    );
    assert_eq!(world.len(), 1);
    assert_eq!(world[0].tile, "B");
    assert_eq!(world[0].inventory, vec!["x".to_string()]);
}
