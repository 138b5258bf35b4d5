use woodspring::character::{Character, Class, EquipmentType, WeaponType};
use woodspring::object::{Attitude, Item, Location, World, NPC};
use woodspring::player::{
    AttackOutcome, EquipOutcome, GoOutcome, MockDiceRoller, Player, SearchOutcome,
    TestInputReader, UnequipOutcome,
};

fn create_test_player() -> Player {
    let mut characters = vec![
        Character::new(Class::Fighter),
        Character::new(Class::Wizard),
        Character::new(Class::Rogue),
    ];

    let mut existing_names: Vec<String> = Vec::new();
    characters[0]
        .set_name("Aragorn".to_string(), &existing_names)
        .unwrap();
    existing_names.push("Aragorn".to_string());
    characters[1]
        .set_name("Gandalf".to_string(), &existing_names)
        .unwrap();
    existing_names.push("Gandalf".to_string());
    characters[2]
        .set_name("Legolas".to_string(), &existing_names)
        .unwrap();

    Player::new(characters)
}

#[test]
fn test_handle_level_up_basic() {
    let mut player = create_test_player();
    player.encounters_won = 10;
    let mut input_reader = TestInputReader::new("Aragorn\n".to_string());
    let mut dice = MockDiceRoller { value: 6 };
    player.handle_level_up(&mut input_reader, &mut dice);
    let aragorn = player
        .characters
        .iter()
        .find(|c| c.name == "Aragorn")
        .unwrap();
    assert_eq!(aragorn.level, 2);
    assert_eq!(player.leveled_up_last_time, Some("Aragorn".to_string()));
}

#[test]
fn test_handle_level_up_with_max_level_others() {
    let mut player = create_test_player();
    player.encounters_won = 10;
    for character in &mut player.characters {
        if character.name != "Aragorn" {
            character.level = 5;
        }
    }
    player.leveled_up_last_time = Some("Aragorn".to_string());
    let mut input_reader = TestInputReader::new("Aragorn\n".to_string());
    let mut dice = MockDiceRoller { value: 6 };
    player.handle_level_up(&mut input_reader, &mut dice);
    let aragorn = player
        .characters
        .iter()
        .find(|c| c.name == "Aragorn")
        .unwrap();
    assert_eq!(aragorn.level, 2);
}

#[test]
fn test_handle_level_up_without_max_level_others() {
    let mut player = create_test_player();
    player.encounters_won = 10;
    player.leveled_up_last_time = Some("Aragorn".to_string());
    let mut input_reader = TestInputReader::new("Gandalf\n".to_string());
    let mut dice = MockDiceRoller { value: 6 };
    player.handle_level_up(&mut input_reader, &mut dice);
    let gandalf = player
        .characters
        .iter()
        .find(|c| c.name == "Gandalf")
        .unwrap();
    assert_eq!(gandalf.level, 2);
    let aragorn = player
        .characters
        .iter()
        .find(|c| c.name == "Aragorn")
        .unwrap();
    assert_eq!(aragorn.level, 1);
}

#[test]
fn level_up_resets_encounter_counter_on_failed_roll() {
    let mut player = create_test_player();
    player.encounters_won = 10;
    let mut input_reader = TestInputReader::new("Aragorn".to_string());
    // A roll of one never beats level one: no level gained.
    let mut dice = MockDiceRoller { value: 1 };
    player.handle_level_up(&mut input_reader, &mut dice);
    let aragorn = player
        .characters
        .iter()
        .find(|c| c.name == "Aragorn")
        .unwrap();
    assert_eq!(aragorn.level, 1);
    assert_eq!(player.encounters_won, 0);
    assert_eq!(player.leveled_up_last_time, None);
}

fn simple_combat_world() -> World {
    let mut world = World::new();
    let mut campo = Location::new("campo", "un campo abierto", true);
    campo.content.add_npc("banda");
    world.add_location(campo);
    let banda = NPC::new("banda", "una banda hostil", "campo", true)
        .with_attitude(Attitude::Hostile)
        .with_level(1)
        .with_count(1);
    world.add_npc(banda);
    world
}

#[test]
fn scenario_lone_fighter_defeats_single_enemy_on_a_six() {
    let world = simple_combat_world();
    let mut fighter = Character::new(Class::Fighter);
    // A medium weapon carries a flat bonus of zero.
    fighter.equip(woodspring::character::Equipment::new(
        "una espada".to_string(),
        EquipmentType::Weapon(WeaponType::Medium),
    ));
    let mut player = Player::new(vec![fighter]);
    player.set_current_location(Some("campo".to_string()));

    let mut dice = MockDiceRoller { value: 6 };
    let outcome = player.execute_attack(&world, "banda", &mut dice);
    assert!(matches!(outcome, AttackOutcome::Victory(1, false)));
    assert_eq!(player.encounters_won, 1);
    assert!(player.defeated_npcs.iter().any(|t| t == "banda"));
    assert_eq!(player.current_combat_enemies, None);
}

#[test]
fn certain_blows_win_even_on_the_worst_roll() {
    // A level-one fighter's class bonus alone reaches a level-one
    // enemy, so even a roll of one fells it.
    let world = simple_combat_world();
    let mut fighter = Character::new(Class::Fighter);
    fighter.equip(woodspring::character::Equipment::new(
        "una espada".to_string(),
        EquipmentType::Weapon(WeaponType::Medium),
    ));
    let mut player = Player::new(vec![fighter]);
    player.set_current_location(Some("campo".to_string()));
    let mut dice = MockDiceRoller { value: 1 };
    let outcome = player.execute_attack(&world, "banda", &mut dice);
    assert!(matches!(outcome, AttackOutcome::Victory(1, false)));
    assert_eq!(player.encounters_won, 1);
}

#[test]
fn combat_round_pauses_when_enemies_remain() {
    let mut world = World::new();
    let mut campo = Location::new("campo", "un campo abierto", true);
    campo.content.add_npc("banda");
    world.add_location(campo);
    let banda = NPC::new("banda", "una banda hostil", "campo", true)
        .with_attitude(Attitude::Hostile)
        .with_level(1)
        .with_count(3);
    world.add_npc(banda);

    let mut fighter = Character::new(Class::Fighter);
    fighter.equip(woodspring::character::Equipment::new(
        "una espada".to_string(),
        EquipmentType::Weapon(WeaponType::Medium),
    ));
    let mut player = Player::new(vec![fighter]);
    player.set_current_location(Some("campo".to_string()));

    // One attacker felling one enemy a round leaves two standing.
    let mut dice = MockDiceRoller { value: 6 };
    let outcome = player.execute_attack(&world, "banda", &mut dice);
    assert!(matches!(outcome, AttackOutcome::RoundFought(1, 2)));
    assert_eq!(player.current_combat_enemies, Some(2));

    // Continuing twice more ends the combat.
    let outcome = player.execute_attack(&world, "continuar", &mut dice);
    assert!(matches!(outcome, AttackOutcome::RoundFought(1, 1)));
    let outcome = player.execute_attack(&world, "1", &mut dice);
    assert!(matches!(outcome, AttackOutcome::Victory(1, false)));
    assert_eq!(player.encounters_won, 1);
}

#[test]
fn fleeing_clears_combat_without_reward() {
    let world = simple_combat_world();
    let mut player = Player::new(vec![Character::new(Class::Fighter)]);
    player.set_current_location(Some("campo".to_string()));
    player.current_combat_enemies = Some(1);
    let mut dice = MockDiceRoller { value: 6 };
    let outcome = player.execute_attack(&world, "2", &mut dice);
    assert!(matches!(outcome, AttackOutcome::Fled));
    assert_eq!(player.current_combat_enemies, None);
    assert_eq!(player.encounters_won, 0);
}

#[test]
fn vermin_group_grants_no_encounter_credit() {
    let mut world = World::new();
    let mut camara = Location::new("camara", "una cámara abandonada", true);
    camara.content.add_npc("ratas");
    world.add_location(camara);
    let mut ratas = NPC::new("ratas", "un grupo de ratas", "camara", true)
        .with_attitude(Attitude::Hostile)
        .with_level(1)
        .with_count(1);
    ratas.add_tag(woodspring::object::NPCTag::Vermin);
    world.add_npc(ratas);

    let mut fighter = Character::new(Class::Fighter);
    fighter.equip(woodspring::character::Equipment::new(
        "una espada".to_string(),
        EquipmentType::Weapon(WeaponType::Medium),
    ));
    let mut player = Player::new(vec![fighter]);
    player.set_current_location(Some("camara".to_string()));
    let mut dice = MockDiceRoller { value: 6 };
    let outcome = player.execute_attack(&world, "ratas", &mut dice);
    assert!(matches!(outcome, AttackOutcome::Victory(1, false)));
    assert_eq!(player.encounters_won, 0);
}

#[test]
fn counterattack_damage_is_floored_at_zero_hit_points() {
    let mut world = World::new();
    let mut foso = Location::new("foso", "un foso sombrío", true);
    foso.content.add_npc("horda");
    world.add_location(foso);
    let horda = NPC::new("horda", "una horda temible", "foso", true)
        .with_attitude(Attitude::Hostile)
        .with_level(20)
        .with_count(2);
    world.add_npc(horda);

    // An unarmed wizard cannot attack; a defense roll of one is a
    // critical failure worth one damage per attacker.
    let mut wizard = Character::new(Class::Wizard);
    wizard.hit_points = 1;
    let mut player = Player::new(vec![wizard]);
    player.set_current_location(Some("foso".to_string()));
    let mut dice = MockDiceRoller { value: 1 };
    let outcome = player.execute_attack(&world, "horda", &mut dice);
    assert!(matches!(outcome, AttackOutcome::RoundFought(0, 2)));
    assert_eq!(player.characters[0].hit_points, 0);

    // Another round leaves the downed wizard at zero, never below.
    let outcome = player.execute_attack(&world, "continuar", &mut dice);
    assert!(matches!(outcome, AttackOutcome::RoundFought(0, 2)));
    assert_eq!(player.characters[0].hit_points, 0);
}

#[test]
fn scenario_leveling_gate_blocks_search_and_attack() {
    let world = simple_combat_world();
    let mut player = create_test_player();
    player.set_current_location(Some("campo".to_string()));
    player.encounters_won = 10;

    let outcome = player.execute_search(&world);
    assert!(matches!(outcome, SearchOutcome::LevelUpPending));

    let mut dice = MockDiceRoller { value: 6 };
    let outcome = player.execute_attack(&world, "banda", &mut dice);
    assert!(matches!(outcome, AttackOutcome::LevelUpPending));
    assert_eq!(player.encounters_won, 10);
}

fn riddle_world() -> World {
    let mut world = World::new();
    world.add_location(Location::new("puerta", "una puerta de piedra", true));
    world.add_location(Location::new("camara", "una cámara abandonada", true));
    world.connect("puerta", "camara");
    world.connect("camara", "puerta");
    world.add_passage(
        woodspring::object::Passage::new(
            "puerta",
            "una puerta de piedra con símbolos grabados",
            "puerta",
            "camara",
            true,
        )
        .with_riddle("Soy alto cuando soy joven y bajo cuando soy viejo. ¿Qué soy?", "vela"),
    );
    world
}

#[test]
fn scenario_cancelling_a_riddle_leaves_everything_unchanged() {
    let world = riddle_world();
    let mut player = Player::new(vec![Character::new(Class::Fighter)]);
    player.set_current_location(Some("puerta".to_string()));

    let outcome = player.execute_go(&world, Some("camara"), Some("cancelar"));
    assert!(matches!(outcome, GoOutcome::RiddleCancelled));
    assert_eq!(player.current_location, Some("puerta".to_string()));
    assert_eq!(player.inventory.len(), 0);
    assert_eq!(player.encounters_won, 0);
}

#[test]
fn riddle_is_asked_wrong_answers_block_and_folding_accepts() {
    let world = riddle_world();
    let mut player = Player::new(vec![Character::new(Class::Fighter)]);
    player.set_current_location(Some("puerta".to_string()));

    let outcome = player.execute_go(&world, Some("camara"), None);
    assert!(matches!(outcome, GoOutcome::RiddleAsked(_)));
    assert_eq!(player.current_location, Some("puerta".to_string()));

    let outcome = player.execute_go(&world, Some("camara"), Some("farol"));
    assert!(matches!(outcome, GoOutcome::WrongRiddleAnswer));
    assert_eq!(player.current_location, Some("puerta".to_string()));

    // Case and surrounding blanks must not matter.
    let outcome = player.execute_go(&world, Some("camara"), Some("  VELA  "));
    assert!(matches!(outcome, GoOutcome::Moved));
    assert_eq!(player.current_location, Some("camara".to_string()));
}

#[test]
fn scenario_equip_without_matching_item_changes_nothing() {
    let mut player = create_test_player();
    player.inventory.push(Item::new("cuerda", "una cuerda"));
    let args = vec!["arma".to_string()];
    let outcome = player.execute_equip(&args);
    assert!(matches!(outcome, EquipOutcome::NoMatchingEquipment));
    assert_eq!(player.inventory.len(), 1);
    assert_eq!(player.inventory[0].base.tag, "cuerda");
    assert!(player.characters[0].weapon.is_none());
}

#[test]
fn equip_swaps_the_previous_weapon_back_into_the_inventory() {
    let mut player = create_test_player();
    player.characters[0].equip(woodspring::character::Equipment::new(
        "una daga ligera".to_string(),
        EquipmentType::Weapon(WeaponType::Light),
    ));
    player.inventory.push(Item::new_equipment(
        "espada",
        "una espada de acero",
        true,
        EquipmentType::Weapon(WeaponType::Medium),
    ));
    let args = vec!["aragorn".to_string(), "arma".to_string()];
    let outcome = player.execute_equip(&args);
    assert!(matches!(outcome, EquipOutcome::Equipped));
    let weapon = player.characters[0].weapon.as_ref().unwrap();
    assert_eq!(weapon.name, "una espada de acero");
    // The displaced dagger came back as an inventory item.
    assert_eq!(player.inventory.len(), 1);
    assert_eq!(player.inventory[0].base.tag, "una daga ligera");
}

#[test]
fn unequip_returns_the_slot_content_to_the_inventory() {
    let mut player = create_test_player();
    player.characters[0].equip(woodspring::character::Equipment::new(
        "un escudo de madera".to_string(),
        EquipmentType::Shield,
    ));
    let args = vec!["escudo".to_string()];
    let outcome = player.execute_unequip(&args);
    assert!(matches!(outcome, UnequipOutcome::Unequipped));
    assert!(player.characters[0].shield.is_none());
    assert_eq!(player.inventory.len(), 1);
    assert_eq!(player.inventory[0].base.tag, "un escudo de madera");

    let outcome = player.execute_unequip(&args);
    assert!(matches!(outcome, UnequipOutcome::SlotEmpty));
    assert_eq!(player.inventory.len(), 1);
}

#[test]
fn unequip_rejects_unknown_names_and_slots() {
    let mut player = create_test_player();
    let args = vec!["boromir".to_string(), "arma".to_string()];
    assert!(matches!(
        player.execute_unequip(&args),
        UnequipOutcome::NoSuchCharacter
    ));
    let args = vec!["sombrero".to_string()];
    assert!(matches!(
        player.execute_unequip(&args),
        UnequipOutcome::InvalidSlot
    ));
    let args: Vec<String> = Vec::new();
    assert!(matches!(player.execute_unequip(&args), UnequipOutcome::NoArgs));
}

#[test]
fn execute_new_enrolls_and_rejects() {
    let mut player = Player::new(vec![Character::new(Class::Fighter)]);
    let words = vec!["Frodo".to_string(), "picaro".to_string()];
    assert!(player.execute_new(&words).is_ok());
    assert_eq!(player.characters.len(), 2);
    assert_eq!(player.characters[1].name, "Frodo");
    assert!(matches!(player.characters[1].class, Class::Rogue));

    // An unknown class is refused.
    let words = vec!["Sam".to_string(), "bardo".to_string()];
    let err = player.execute_new(&words).unwrap_err();
    assert_eq!(err, "Clase no válida. Clases disponibles: GUERRERO, MAGO, PICARO");

    // A duplicate name is refused.
    let words = vec!["Frodo".to_string(), "mago".to_string()];
    assert!(player.execute_new(&words).is_err());
    assert_eq!(player.characters.len(), 2);

    // A fourth member is refused once the party is full.
    let words = vec!["Sam".to_string(), "mago".to_string()];
    assert!(player.execute_new(&words).is_ok());
    let words = vec!["Pippin".to_string(), "mago".to_string()];
    let err = player.execute_new(&words).unwrap_err();
    assert_eq!(err, "Ya tienes el máximo de personajes permitidos (3).");
}
