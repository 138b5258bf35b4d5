use woodspring::enemy::Enemy;
use woodspring::object::{
    find_passage_between, get_hidden_items_in_location, get_items_in_location,
    get_npcs_in_location, get_passages_from_location, world_is_closed, GameObject, Item, Location,
    Passage, World, NPC,
};

#[test]
fn the_catalog_refuses_duplicates_and_dangling_edges() {
    let mut world = World::new();
    assert!(world.add_location(Location::new("campo", "un campo", true)));
    // A second location under the same tag is refused.
    assert!(!world.add_location(Location::new("campo", "otro campo", true)));
    // A location that already carries connections is refused too.
    let mut eager = Location::new("cueva", "una cueva", true);
    eager.add_connection("campo");
    assert!(!world.add_location(eager));
    assert!(world.add_location(Location::new("cueva", "una cueva", true)));

    // Edges only land between known locations.
    assert!(world.connect("campo", "cueva"));
    assert!(!world.connect("campo", "atlantida"));
    assert!(!world.connect("atlantida", "campo"));
    assert!(world_is_closed(&world));

    assert!(world.add_item(Item::new("llave", "una llave")));
    assert!(!world.add_item(Item::new("llave", "otra llave")));
    assert!(world.add_npc(NPC::new("guardia", "una guardia", "campo", true)));
    assert!(!world.add_npc(NPC::new("guardia", "otra guardia", "campo", true)));
    assert!(world.add_passage(Passage::new("tunel", "un túnel", "campo", "cueva", true)));
    assert!(!world.add_passage(Passage::new("tunel", "otro túnel", "cueva", "campo", true)));
}

#[test]
fn passages_are_found_in_either_direction() {
    let mut world = World::new();
    world.add_location(Location::new("campo", "un campo", true));
    world.add_location(Location::new("cueva", "una cueva", true));
    world.add_passage(Passage::new("tunel", "un túnel", "campo", "cueva", true));

    assert!(find_passage_between(&world, "campo", "cueva").is_some());
    assert!(find_passage_between(&world, "cueva", "campo").is_some());
    assert!(find_passage_between(&world, "campo", "campo").is_none());

    let from_campo = get_passages_from_location(&world, "campo");
    assert_eq!(from_campo.len(), 1);
    assert_eq!(from_campo[0].base.tag, "tunel");
    assert!(get_passages_from_location(&world, "cueva").is_empty());
}

#[test]
fn location_queries_list_their_residents() {
    let mut world = World::new();
    let mut cueva = Location::new("cueva", "una cueva", true);
    cueva.content.add_item(Item::new("antorcha", "una antorcha"));
    cueva.content.add_item(Item::new("cuerda", "una cuerda"));
    let mut gema = Item::new("gema", "una gema");
    gema.base.visible = false;
    cueva.content.add_hidden_item(gema);
    world.add_location(cueva);
    world.add_npc(NPC::new("guardia", "una guardia", "pueblo", true));
    world.add_npc(NPC::new("goblins", "unos goblins", "bosque", true));
    world.add_npc(NPC::new("lobos", "unos lobos", "bosque", true));

    let in_bosque = get_npcs_in_location(&world, "bosque");
    assert_eq!(in_bosque.len(), 2);
    assert_eq!(in_bosque[0].base.tag, "goblins");
    assert_eq!(in_bosque[1].base.tag, "lobos");

    // The lookup returns what lies at the location, in room order.
    let at_cueva = get_items_in_location(&world, "cueva");
    assert_eq!(at_cueva.len(), 2);
    assert_eq!(at_cueva[0].base.tag, "antorcha");
    assert_eq!(at_cueva[1].base.tag, "cuerda");
    assert!(get_items_in_location(&world, "atlantida").is_empty());

    let cueva_ref = woodspring::object::find_location(&world, "cueva").unwrap();
    let hidden = get_hidden_items_in_location(cueva_ref);
    assert_eq!(hidden.len(), 1);
    assert_eq!(hidden[0].base.tag, "gema");
}

#[test]
fn game_objects_keep_their_texts() {
    let base = GameObject::new("pozo", "un pozo", true).with_long_description(
        "Un pozo profundo de piedra gastada.",
    );
    assert_eq!(base.tag, "pozo");
    assert_eq!(base.description, "un pozo");
    assert_eq!(base.long_description, "Un pozo profundo de piedra gastada.");
    assert!(base.visible);
}

#[test]
fn enemy_loot_tables_carry_over() {
    let e = Enemy::new("lobo", "un lobo", "bosque", 2, 2, 4, 75)
        .with_loot(vec!["pocion_menor", "colmillo"])
        .with_count(3);
    assert_eq!(e.loot_table, vec!["pocion_menor".to_string(), "colmillo".to_string()]);
    assert_eq!(e.base.count, 3);
    assert_eq!(e.experience, 75);
}

#[test]
fn room_locks_and_visits_are_recorded() {
    let mut room = woodspring::object::RoomContent::new();
    assert!(!room.is_visited);
    room.mark_as_visited();
    assert!(room.is_visited);
    room.add_hidden_item(Item::new("gema", "una gema"));
    room.remove_hidden_item("gema");
    assert!(room.find_hidden_item("gema").is_none());
    room.lock(None);
    assert!(room.is_locked);
    assert!(room.required_key.is_none());
}
