use kindara::interact::Interaction;
use kindara::items::{
    drop, find_source, get_object, get_place_target, list_items, place_object, take,
    InventoryError, Item, ItemEntry, ObjectError, PlaceError, PlaceTargetError, Size, Surface,
    SurfaceKind, TakeError,
};

fn item(entity: u64, name: &str) -> ItemEntry {
    ItemEntry {
        entity,
        item: Item {
            name: name.to_string(),
            short_name: String::new(),
            tags: vec![],
            size: Size::Small,
        },
        interactions: None,
        surface: None,
    }
}

fn with_tags(mut e: ItemEntry, tags: &[&str]) -> ItemEntry {
    e.item.tags = tags.iter().map(|t| t.to_string()).collect();
    e
}

fn offering(mut e: ItemEntry, interactions: Vec<Interaction>) -> ItemEntry {
    e.interactions = Some(interactions);
    e
}

fn surface(mut e: ItemEntry, kind: SurfaceKind, capacity: u8) -> ItemEntry {
    e.surface = Some(Surface { kind, capacity });
    e
}

#[test]
fn drop_by_name() {
    let inventory = vec![item(1, "stick"), item(2, "rock")];
    let (moved, text) = drop("stick", false, &inventory);
    assert_eq!(text, "You drop a stick.");
    assert_eq!(moved, vec![1]);
}

#[test]
fn drop_by_tag() {
    let inventory = vec![with_tags(item(1, "stick"), &["weapon"])];
    let (moved, text) = drop("stick", false, &inventory);
    assert_eq!(text, "You drop a stick.");
    assert_eq!(moved, vec![1]);
}

#[test]
fn drop_all() {
    let inventory = vec![item(1, "stick"), item(2, "stick"), item(3, "rock")];
    let (moved, text) = drop("stick", true, &inventory);
    assert_eq!(text, "You drop 2 sticks.");
    assert_eq!(moved, vec![1, 2]);
    assert!(!moved.contains(&3));
}

#[test]
fn drop_not_found() {
    let inventory: Vec<ItemEntry> = vec![];
    let (moved, text) = drop("sword", false, &inventory);
    assert_eq!(text, "You don't have a sword.");
    assert!(moved.is_empty());
}

#[test]
fn drop_by_tag_word() {
    let inventory = vec![item(1, "rock"), with_tags(item(2, "stick"), &["weapon"])];
    let (moved, text) = drop("weapon", false, &inventory);
    assert_eq!(text, "You drop a stick.");
    assert_eq!(moved, vec![2]);
}

#[test]
fn carrying_nothing() {
    let names: Vec<String> = vec![];
    let r = list_items(&names);
    assert_eq!(r, Err(InventoryError::NotCarryingAnything));
    assert_eq!(InventoryError::NotCarryingAnything.message(), "You are not carrying anything.");
}

#[test]
fn carrying_an_item() {
    let names = vec!["stick".to_string()];
    assert_eq!(list_items(&names), Ok("You are carrying: stick".to_string()));
}

#[test]
fn carrying_several_items() {
    let names = vec!["stick".to_string(), "rock".to_string()];
    assert_eq!(list_items(&names), Ok("You are carrying: rock, stick".to_string()));
}

#[test]
fn take_by_name() {
    let tile = vec![offering(item(1, "stick"), vec![Interaction::Take])];
    let r = take("stick", false, None, &tile);
    assert_eq!(r, Ok((vec![1], "You take a stick.".to_string())));
}

#[test]
fn take_by_tag() {
    let tile = vec![offering(
        with_tags(item(1, "stick"), &["weapon"]),
        vec![Interaction::Take],
    )];
    let r = take("weapon", false, None, &tile);
    assert_eq!(r, Ok((vec![1], "You take a stick.".to_string())));
}

#[test]
fn take_all() {
    let tile = vec![
        offering(item(1, "stick"), vec![Interaction::Take]),
        offering(item(2, "stick"), vec![Interaction::Take]),
        offering(item(3, "rock"), vec![Interaction::Take]),
    ];
    let r = take("stick", true, None, &tile);
    assert_eq!(r, Ok((vec![1, 2], "You take 2 sticks.".to_string())));
}

#[test]
fn take_from_another() {
    let tile = vec![surface(item(1, "table"), SurfaceKind::Floor, 1)];
    let source = find_source(&tile, "table");
    assert_eq!(source, Some(0));
    let on_table = vec![offering(item(2, "plate"), vec![Interaction::Take])];
    let r = take("plate", false, Some("table"), &on_table);
    assert_eq!(r, Ok((vec![2], "You take a plate.".to_string())));
}

#[test]
fn take_not_found() {
    let tile: Vec<ItemEntry> = vec![];
    let r = take("sword", false, None, &tile);
    assert_eq!(r, Err(TakeError::NotFound("sword".to_string())));
    assert_eq!(
        TakeError::NotFound("sword".to_string()).message(),
        "You don't see a sword here."
    );
}

#[test]
fn take_missing_source_names_the_source() {
    let on_table: Vec<ItemEntry> = vec![];
    let r = take("plate", false, Some("table"), &on_table);
    assert_eq!(r, Err(TakeError::NotFound("table".to_string())));
}

#[test]
fn take_refuses_what_cannot_be_taken() {
    let tile = vec![item(1, "boulder")];
    let r = take("boulder", false, None, &tile);
    assert_eq!(r, Err(TakeError::NotTakeable));
    assert_eq!(TakeError::NotTakeable.message(), "You can't take that.");
}

fn plate() -> ItemEntry {
    offering(with_tags(item(2, "dinner plate"), &["plate"]), vec![Interaction::Place])
}

#[test]
fn place_place_an_item() {
    let inventory = vec![plate()];
    let tile = vec![surface(item(1, "table"), SurfaceKind::Floor, 1)];
    let o = get_object("plate", &inventory).unwrap();
    let t = get_place_target("table", &tile).unwrap();
    let r = place_object(&inventory[o], &tile[t], None);
    assert_eq!(r, Ok("You place the dinner plate on the table.".to_string()));
}

#[test]
fn place_object_not_found() {
    let inventory: Vec<ItemEntry> = vec![];
    let r = get_object("plate", &inventory);
    assert_eq!(r, Err(ObjectError::NotFound("plate".to_string())));
    assert_eq!(
        ObjectError::NotFound("plate".to_string()).message(),
        "You don't have a plate."
    );
}

#[test]
fn place_object_not_placable() {
    let inventory = vec![with_tags(item(2, "dinner plate"), &["plate"])];
    let r = get_object("plate", &inventory);
    let e = r.unwrap_err();
    assert_eq!(e.message(), "You can't place the dinner plate.");
}

#[test]
fn place_target_not_found() {
    let tile: Vec<ItemEntry> = vec![];
    let r = get_place_target("table", &tile);
    assert_eq!(r, Err(PlaceTargetError::NotFound("table".to_string())));
    assert_eq!(
        PlaceTargetError::NotFound("table".to_string()).message(),
        "You don't see a table here."
    );
}

#[test]
fn place_target_not_a_surface() {
    let inventory = vec![plate()];
    let tile = vec![item(1, "table")];
    let t = get_place_target("table", &tile).unwrap();
    let r = place_object(&inventory[0], &tile[t], None);
    let e = r.unwrap_err();
    assert_eq!(e.message(), "You can't place the dinner plate on the table.");
}

#[test]
fn place_target_at_capacity() {
    let inventory = vec![plate()];
    let tile = vec![surface(item(1, "table"), SurfaceKind::Floor, 1)];
    let r = place_object(&inventory[0], &tile[0], Some(&[Size::Medium]));
    assert_eq!(r, Err(PlaceError::AtCapacity("table".to_string())));
    assert_eq!(
        PlaceError::AtCapacity("table".to_string()).message(),
        "The table is full."
    );
}

#[test]
fn place_fills_exactly() {
    let inventory = vec![plate()];
    let tile = vec![surface(item(1, "shelf"), SurfaceKind::Wall, 4)];
    let r = place_object(&inventory[0], &tile[0], Some(&[Size::Medium]));
    assert_eq!(r, Ok("You place the dinner plate against the shelf.".to_string()));
}

#[test]
fn sizes_and_prepositions() {
    assert_eq!(Size::Small.value(), 1);
    assert_eq!(Size::Medium.value(), 3);
    assert_eq!(Size::Large.value(), 5);
    assert_eq!(SurfaceKind::Interior.preposition(), "in");
    assert_eq!(SurfaceKind::Ceiling.preposition(), "on");
}

#[test]
fn empty_surface_takes_anything() {
    let mut boulder = plate();
    boulder.item.name = "boulder".to_string();
    boulder.item.size = Size::Large;
    let tile = vec![surface(item(1, "table"), SurfaceKind::Floor, 1)];
    let r = place_object(&boulder, &tile[0], None);
    assert_eq!(r, Ok("You place the boulder on the table.".to_string()));
    let r = place_object(&boulder, &tile[0], Some(&[]));
    assert_eq!(r, Err(PlaceError::AtCapacity("table".to_string())));
}

#[test]
fn place_command_checks_in_order() {
    let carried = vec![item(3, "rock"), plate()];
    let tile = vec![item(4, "stool"), surface(item(1, "table"), SurfaceKind::Floor, 4)];
    let contents = vec![None, Some(vec![Size::Small])];
    let r = kindara::items::place("plate", "table", &carried, &tile, &contents);
    assert_eq!(r, Ok((2, 1, "You place the dinner plate on the table.".to_string())));
    let r = kindara::items::place("cup", "table", &carried, &tile, &contents);
    assert_eq!(r, Err("You don't have a cup.".to_string()));
    let r = kindara::items::place("rock", "nowhere", &carried, &tile, &contents);
    assert_eq!(r, Err("You can't place the rock.".to_string()));
    let r = kindara::items::place("plate", "chair", &carried, &tile, &contents);
    assert_eq!(r, Err("You don't see a chair here.".to_string()));
    let r = kindara::items::place("plate", "stool", &carried, &tile, &contents);
    assert_eq!(r, Err("You can't place the dinner plate on the stool.".to_string()));
    let full = vec![None, Some(vec![Size::Medium, Size::Small])];
    let r = kindara::items::place("plate", "table", &carried, &tile, &full);
    assert_eq!(r, Err("The table is full.".to_string()));
}
