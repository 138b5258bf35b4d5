use woodspring::character::{Character, Class};
use woodspring::object::{Attitude, Item, Location, Passage, World, NPC};
use woodspring::player::{GoOutcome, Player, SearchOutcome};
use woodspring::worlddata::default_world;

fn small_world() -> World {
    let mut world = World::new();
    let mut campo = Location::new("campo", "un campo abierto", true);
    campo.content.add_item(Item::new("cuerda", "una cuerda"));
    world.add_location(campo);
    world.add_location(Location::new("cueva", "una pequeña cueva", true));
    world.connect("campo", "cueva");
    world.connect("cueva", "campo");
    world
}

fn lone_player() -> Player {
    Player::new(vec![Character::new(Class::Fighter)])
}

#[test]
fn first_move_is_free_to_any_known_location() {
    let world = small_world();
    let mut player = lone_player();
    let outcome = player.execute_go(&world, Some("cueva"), None);
    assert!(matches!(outcome, GoOutcome::Moved));
    assert_eq!(player.current_location, Some("cueva".to_string()));

    let mut player2 = lone_player();
    let outcome = player2.execute_go(&world, Some("atlantida"), None);
    assert!(matches!(outcome, GoOutcome::NoSuchLocation));
    assert_eq!(player2.current_location, None);
}

#[test]
fn moves_follow_connections_only() {
    let mut world = small_world();
    world.add_location(Location::new("isla", "una isla lejana", true));
    let mut player = lone_player();
    player.set_current_location(Some("campo".to_string()));

    let outcome = player.execute_go(&world, Some("isla"), None);
    assert!(matches!(outcome, GoOutcome::NoPathFromHere(_)));
    assert_eq!(player.current_location, Some("campo".to_string()));

    let outcome = player.execute_go(&world, Some("cueva"), None);
    assert!(matches!(outcome, GoOutcome::Moved));
    assert_eq!(player.current_location, Some("cueva".to_string()));
}

#[test]
fn hostiles_block_any_movement() {
    let mut world = small_world();
    let mut campo_hostil = Location::new("selva", "una selva espesa", true);
    campo_hostil.content.add_npc("fieras");
    world.add_location(campo_hostil);
    world.connect("selva", "campo");
    world.add_npc(
        NPC::new("fieras", "unas fieras", "selva", true)
            .with_attitude(Attitude::Hostile)
            .with_level(2)
            .with_count(2),
    );
    let mut player = lone_player();
    player.set_current_location(Some("selva".to_string()));
    let outcome = player.execute_go(&world, Some("campo"), None);
    assert!(matches!(outcome, GoOutcome::HostilesPresent));
    assert_eq!(player.current_location, Some("selva".to_string()));
}

#[test]
fn passages_demand_their_item_and_key() {
    let mut world = World::new();
    world.add_location(Location::new("grieta", "una grieta", true));
    world.add_location(Location::new("corredor", "un corredor oscuro", true));
    world.add_location(Location::new("biblioteca", "una biblioteca", true));
    world.connect("grieta", "corredor");
    world.connect("grieta", "biblioteca");
    world.add_passage(
        Passage::new("corredor", "un corredor sin luz", "grieta", "corredor", true)
            .with_item("antorcha"),
    );
    world.add_passage(
        Passage::new("trampilla", "una trampilla cerrada", "grieta", "biblioteca", true)
            .with_key("llave"),
    );

    let mut player = lone_player();
    player.set_current_location(Some("grieta".to_string()));

    let outcome = player.execute_go(&world, Some("corredor"), None);
    assert!(matches!(outcome, GoOutcome::MissingItem));
    assert_eq!(player.current_location, Some("grieta".to_string()));

    let outcome = player.execute_go(&world, Some("biblioteca"), None);
    assert!(matches!(outcome, GoOutcome::MissingKey));

    player.inventory.push(Item::new("antorcha", "una antorcha"));
    let outcome = player.execute_go(&world, Some("corredor"), None);
    assert!(matches!(outcome, GoOutcome::Moved));
    assert_eq!(player.current_location, Some("corredor".to_string()));
}

#[test]
fn take_and_drop_move_items_between_ground_and_pack() {
    let world = small_world();
    let mut player = lone_player();
    player.set_current_location(Some("campo".to_string()));

    assert!(player.execute_take(&world, "cuerda"));
    assert!(player.has_item("cuerda"));
    assert_eq!(player.inventory.len(), 1);
    // Already picked: a second take finds nothing to grab.
    assert!(!player.execute_take(&world, "cuerda"));

    assert!(player.execute_drop(&world, "cuerda"));
    assert!(!player.has_item("cuerda"));
    assert_eq!(player.dropped_items.len(), 1);
    assert_eq!(player.dropped_items[0].0, "cuerda");
    assert_eq!(player.dropped_items[0].1, "campo");
    // Dropping it again fails: it is no longer carried.
    assert!(!player.execute_drop(&world, "cuerda"));
}

#[test]
fn take_refuses_unknown_or_absent_items() {
    let world = small_world();
    let mut player = lone_player();
    assert!(!player.execute_take(&world, "cuerda"));
    player.set_current_location(Some("cueva".to_string()));
    assert!(!player.execute_take(&world, "cuerda"));
}

#[test]
fn scenario_fresh_search_without_light_has_even_odds() {
    assert_eq!(woodspring::player::search_success_chance(0, false), 50);
}

#[test]
fn search_chance_grows_with_attempts_and_light_and_clamps() {
    assert_eq!(woodspring::player::search_success_chance(1, false), 55);
    assert_eq!(woodspring::player::search_success_chance(5, false), 75);
    assert_eq!(woodspring::player::search_success_chance(9, false), 75);
    assert_eq!(woodspring::player::search_success_chance(0, true), 70);
    assert_eq!(woodspring::player::search_success_chance(5, true), 95);
    assert_eq!(woodspring::player::search_success_chance(1000, true), 95);
}

fn hidden_world() -> World {
    let mut world = World::new();
    let mut cueva = Location::new("cueva", "una pequeña cueva", true);
    let mut gema = Item::new("gema", "una gema brillante");
    gema.base.visible = false;
    cueva.content.add_item(gema);
    world.add_location(cueva);
    world.add_location(Location::new("grieta", "una grieta oculta", false));
    world.connect("cueva", "grieta");
    world.connect("grieta", "cueva");
    world
}

#[test]
fn successful_search_reveals_items_and_places_at_once() {
    let world = hidden_world();
    let mut player = lone_player();
    player.set_current_location(Some("cueva".to_string()));

    // A roll of one always lands under the base chance of fifty.
    let (found, revealed) = player.search_with_roll(&world, 1);
    assert!(found);
    assert_eq!(revealed, vec!["gema".to_string(), "grieta".to_string()]);
    assert!(player.discovered_items.iter().any(|t| t == "gema"));
    assert!(player.discovered_locations.iter().any(|t| t == "grieta"));
    assert_eq!(player.get_search_attempts("cueva"), 0);

    // The discovered crack is now a listed exit.
    let exits = player.show_available_locations(&world);
    assert_eq!(exits, vec!["grieta".to_string()]);

    // Searching again succeeds but has nothing more to find.
    let (found, revealed) = player.search_with_roll(&world, 1);
    assert!(found);
    assert!(revealed.is_empty());
}

#[test]
fn failed_search_only_raises_the_attempt_counter() {
    let world = hidden_world();
    let mut player = lone_player();
    player.set_current_location(Some("cueva".to_string()));

    // A roll of one hundred always misses a chance capped at 95.
    let (found, revealed) = player.search_with_roll(&world, 100);
    assert!(!found);
    assert!(revealed.is_empty());
    assert_eq!(player.get_search_attempts("cueva"), 1);
    assert!(player.discovered_items.is_empty());

    let (found, _) = player.search_with_roll(&world, 100);
    assert!(!found);
    assert_eq!(player.get_search_attempts("cueva"), 2);
}

#[test]
fn hidden_exits_stay_unlisted_until_discovered() {
    let world = hidden_world();
    let mut player = lone_player();
    player.set_current_location(Some("cueva".to_string()));
    let exits = player.show_available_locations(&world);
    assert!(exits.is_empty());
    let outcome = player.execute_go(&world, Some("grieta"), None);
    // The edge exists, so the move succeeds even while unlisted.
    assert!(matches!(outcome, GoOutcome::Moved));
}

#[test]
fn search_somewhere_unknown_finds_nothing() {
    let world = hidden_world();
    let mut player = lone_player();
    match player.execute_search(&world) {
        SearchOutcome::Searched(found, revealed) => {
            assert!(!found);
            assert!(revealed.is_empty());
        }
        other => panic!("unexpected outcome: {:?}", other),
    }
}

#[test]
fn the_shipped_world_is_closed_and_well_stocked() {
    let world = default_world();
    assert!(woodspring::object::world_is_closed(&world));
    assert!(woodspring::object::find_location(&world, "pueblo").is_some());
    assert!(woodspring::object::find_npc(&world, "goblins").is_some());
    assert!(woodspring::object::find_passage(&world, "tesoro").is_some());
    assert!(woodspring::object::find_item(&world, "llave").is_some());
    let cueva = woodspring::object::find_location(&world, "cueva").unwrap();
    assert_eq!(cueva.connections, vec!["campo", "grieta", "bosque"]);
}

#[test]
fn looking_around_separates_items_npcs_and_dropped_goods() {
    let world = default_world();
    let mut player = lone_player();
    player.set_current_location(Some("campo".to_string()));
    let items = player.visible_items_here(&world);
    assert_eq!(items, vec!["cuerda".to_string(), "moneda".to_string()]);

    assert!(player.execute_take(&world, "cuerda"));
    let items = player.visible_items_here(&world);
    assert_eq!(items, vec!["moneda".to_string()]);

    player.set_current_location(Some("pueblo".to_string()));
    let npcs = player.visible_npcs_here(&world);
    assert_eq!(npcs, vec!["guardia".to_string()]);

    assert!(player.execute_drop(&world, "cuerda"));
    let dropped = player.dropped_items_here(&world);
    assert_eq!(dropped, vec!["cuerda".to_string()]);
}
