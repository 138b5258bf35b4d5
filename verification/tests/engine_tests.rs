use woodspring::character::{
    ArmorType, Character, CharacterTrait, Class, Equipment, EquipmentType, WeaponType,
    parse_new_character,
};
use woodspring::enemy::{
    get_enemies_by_difficulty, get_enemies_by_level_range, get_enemies_by_location, get_enemy,
};
use woodspring::object::{NPCTag, RoomContent, Item, NPC};
use woodspring::parsexec::{parse_command, Command};
use woodspring::worlddata::default_enemies;

#[test]
fn classes_carry_their_trait_and_hit_dice() {
    assert_eq!(Class::Fighter.get_traits(), vec![CharacterTrait::Warrior]);
    assert_eq!(Class::Halfling.get_traits(), vec![CharacterTrait::Halfling]);
    assert_eq!(Character::calculate_hit_points(&Class::Fighter, 1), 7);
    assert_eq!(Character::calculate_hit_points(&Class::Barbarian, 1), 8);
    assert_eq!(Character::calculate_hit_points(&Class::Wizard, 3), 5);
    let c = Character::new(Class::Dwarf);
    assert_eq!(c.hit_points, 6);
    assert_eq!(c.max_hit_points, 6);
    assert_eq!(c.level, 1);
    assert_eq!(c.name, "Aventurero Enano");
}

#[test]
fn renaming_checks_blanks_and_duplicates() {
    let mut c = Character::new(Class::Wizard);
    let taken = vec!["Gandalf".to_string()];
    let err = c.set_name("   ".to_string(), &taken).unwrap_err();
    assert_eq!(err, "El nombre no puede estar vacío");
    let err = c.set_name("Gandalf".to_string(), &taken).unwrap_err();
    assert_eq!(err, "Ya existe un personaje con el nombre: Gandalf");
    assert!(c.set_name("Radagast".to_string(), &taken).is_ok());
    assert_eq!(c.name, "Radagast");
}

#[test]
fn parse_new_character_reads_name_and_class() {
    let taken: Vec<String> = Vec::new();
    let words = vec!["Conan".to_string(), "GUERRERO".to_string()];
    let c = parse_new_character(&words, &taken).unwrap();
    assert!(matches!(c.class, Class::Fighter));
    assert_eq!(c.name, "Conan");

    let words = vec!["Conan".to_string()];
    let err = parse_new_character(&words, &taken).unwrap_err();
    assert_eq!(err, "Formato incorrecto. Uso: nuevo <nombre> <clase>");
}

#[test]
fn weapon_bonuses_follow_the_weight_table() {
    let mut c = Character::new(Class::Fighter);
    assert_eq!(c.get_equipment_attack_bonus(), None);
    c.equip(Equipment::new("una daga".to_string(), EquipmentType::Weapon(WeaponType::Light)));
    assert_eq!(c.get_equipment_attack_bonus(), Some(-1));
    c.equip(Equipment::new("una espada".to_string(), EquipmentType::Weapon(WeaponType::Medium)));
    assert_eq!(c.get_equipment_attack_bonus(), Some(0));
    c.equip(Equipment::new("un hacha".to_string(), EquipmentType::Weapon(WeaponType::Heavy)));
    assert_eq!(c.get_equipment_attack_bonus(), Some(1));
}

#[test]
fn defense_bonuses_stack_armor_and_shield() {
    let mut c = Character::new(Class::Fighter);
    assert_eq!(c.get_equipment_defense_bonus(), 0);
    c.equip(Equipment::new("una cota".to_string(), EquipmentType::Armor(ArmorType::Heavy)));
    assert_eq!(c.get_equipment_defense_bonus(), 2);
    c.equip(Equipment::new("un escudo".to_string(), EquipmentType::Shield));
    assert_eq!(c.get_equipment_defense_bonus(), 3);
}

#[test]
fn class_attack_bonuses_follow_the_class_table() {
    let mut cleric = Character::new(Class::Cleric);
    cleric.level = 5;
    assert_eq!(cleric.get_class_attack_bonus(false, &vec![NPCTag::Undead]), 5);
    assert_eq!(cleric.get_class_attack_bonus(false, &vec![NPCTag::Orc]), 2);

    let mut rogue = Character::new(Class::Rogue);
    rogue.level = 3;
    assert_eq!(rogue.get_class_attack_bonus(true, &vec![]), 3);
    assert_eq!(rogue.get_class_attack_bonus(false, &vec![]), 0);

    let mut elf = Character::new(Class::Elf);
    elf.level = 2;
    assert_eq!(elf.get_class_attack_bonus(false, &vec![]), 2);
    assert_eq!(elf.get_class_attack_bonus(false, &vec![NPCTag::Orc]), 3);
    elf.equip(Equipment::new("un hacha".to_string(), EquipmentType::Weapon(WeaponType::Heavy)));
    assert_eq!(elf.get_class_attack_bonus(false, &vec![]), 0);
    assert_eq!(elf.get_class_attack_bonus(false, &vec![NPCTag::Orc]), 1);

    let mut dwarf = Character::new(Class::Dwarf);
    dwarf.level = 4;
    assert_eq!(dwarf.get_class_attack_bonus(false, &vec![NPCTag::Goblin]), 5);
    dwarf.equip(Equipment::new("un arco".to_string(), EquipmentType::Bow));
    assert_eq!(dwarf.get_class_attack_bonus(false, &vec![]), 4);

    assert_eq!(Character::new(Class::Wizard).get_class_attack_bonus(true, &vec![]), 0);
}

#[test]
fn stout_folk_stand_firm_against_giants() {
    let halfling = Character::new(Class::Halfling);
    assert_eq!(halfling.get_class_defense_bonus(&vec![NPCTag::Troll]), 1);
    assert_eq!(halfling.get_class_defense_bonus(&vec![NPCTag::Orc]), 0);
    let fighter = Character::new(Class::Fighter);
    assert_eq!(fighter.get_class_defense_bonus(&vec![NPCTag::Giant]), 0);
}

#[test]
fn damage_is_capped_by_remaining_hit_points() {
    let mut c = Character::new(Class::Wizard);
    assert_eq!(c.max_hit_points, 3);
    assert_eq!(c.take_damage(2), 2);
    assert_eq!(c.hit_points, 1);
    assert!(c.is_alive());
    assert_eq!(c.take_damage(5), 1);
    assert_eq!(c.hit_points, 0);
    assert!(!c.is_alive());
    assert_eq!(c.take_damage(1), 0);
    assert_eq!(c.hit_points, 0);
}

#[test]
fn equipment_bonus_values_cover_every_kind() {
    assert_eq!(Equipment::new("d".to_string(), EquipmentType::Weapon(WeaponType::Light)).get_bonus(), -1);
    assert_eq!(Equipment::new("e".to_string(), EquipmentType::Weapon(WeaponType::Medium)).get_bonus(), 0);
    assert_eq!(Equipment::new("h".to_string(), EquipmentType::Weapon(WeaponType::Heavy)).get_bonus(), 1);
    assert_eq!(Equipment::new("s".to_string(), EquipmentType::Shield).get_bonus(), 1);
    assert_eq!(Equipment::new("a".to_string(), EquipmentType::Armor(ArmorType::Light)).get_bonus(), 1);
    assert_eq!(Equipment::new("p".to_string(), EquipmentType::Armor(ArmorType::Heavy)).get_bonus(), 2);
    assert_eq!(Equipment::new("b".to_string(), EquipmentType::Basic).get_bonus(), -2);
}

#[test]
fn items_convert_to_equipment_and_back() {
    let item = Item::new_equipment("espada", "una espada de acero", true, EquipmentType::Weapon(WeaponType::Medium));
    let eq = item.to_equipment().unwrap();
    assert_eq!(eq.name, "una espada de acero");
    assert!(matches!(eq.equipment_type, EquipmentType::Weapon(WeaponType::Medium)));
    let back = Item::from_equipment(eq);
    assert_eq!(back.base.tag, "una espada de acero");
    assert!(back.is_equipment);

    assert!(Item::new("cuerda", "una cuerda").to_equipment().is_none());
}

#[test]
fn room_content_tracks_hidden_and_visible_items() {
    let mut room = RoomContent::new();
    room.add_item(Item::new("cuerda", "una cuerda"));
    room.add_hidden_item(Item::new("gema", "una gema"));
    assert!(room.find_hidden_item("gema").is_some());
    assert!(room.find_hidden_item("cuerda").is_none());

    let revealed = room.reveal_hidden_item("gema").unwrap();
    assert_eq!(revealed.base.tag, "gema");
    assert!(room.find_hidden_item("gema").is_none());
    assert_eq!(room.items.len(), 2);
    assert!(room.reveal_hidden_item("gema").is_none());

    room.remove_item("cuerda");
    assert_eq!(room.items.len(), 1);
    assert_eq!(room.items[0].base.tag, "gema");

    room.add_npc("guardia");
    room.add_npc("goblins");
    room.remove_npc("guardia");
    assert_eq!(room.npcs, vec!["goblins".to_string()]);

    room.lock(Some("llave"));
    assert!(room.is_locked);
    assert_eq!(room.required_key, Some("llave".to_string()));
    room.unlock();
    assert!(!room.is_locked);
    assert!(room.required_key.is_none());
}

#[test]
fn npc_levels_clamp_and_tags_do_not_repeat() {
    let mut npc = NPC::new("ogro", "un ogro", "puente", true).with_level(99);
    assert_eq!(npc.level, 20);
    npc.add_tag(NPCTag::Ogre);
    npc.add_tag(NPCTag::Ogre);
    assert_eq!(npc.tags.len(), 1);
    assert!(npc.has_tag(&NPCTag::Ogre));
    assert!(!npc.has_tag(&NPCTag::Troll));
}

#[test]
fn the_encounter_table_answers_every_query() {
    let enemies = default_enemies();
    assert_eq!(enemies.len(), 7);
    let goblin = get_enemy(&enemies, "goblin").unwrap();
    assert_eq!(goblin.difficulty, 1);
    assert_eq!(goblin.base.count, 4);
    assert!(get_enemy(&enemies, "dragon").is_none());

    let medium = get_enemies_by_difficulty(&enemies, 3);
    assert_eq!(medium.len(), 2);
    let easy = get_enemies_by_level_range(&enemies, 1, 4);
    assert_eq!(easy.len(), 3);
    let forest = get_enemies_by_location(&enemies, "bosque");
    assert_eq!(forest.len(), 2);
}

#[test]
fn enemy_grades_clamp_into_their_ranges() {
    let e = woodspring::enemy::Enemy::new("t", "una cosa", "sitio", 9, 0, 30, 10);
    assert_eq!(e.difficulty, 5);
    assert_eq!(e.min_level, 1);
    assert_eq!(e.max_level, 20);
    let e = woodspring::enemy::Enemy::new("t", "una cosa", "sitio", 3, 6, 2, 10);
    assert_eq!(e.min_level, 6);
    assert_eq!(e.max_level, 6);
}

#[test]
fn command_words_parse_into_typed_actions() {
    let words = |s: &str| -> Vec<String> { s.split_whitespace().map(|w| w.to_string()).collect() };
    assert!(matches!(parse_command(&words("mirar")), Command::Look));
    match parse_command(&words("ir campo")) {
        Command::Go(Some(t)) => assert_eq!(t, "campo"),
        other => panic!("unexpected command: {:?}", other),
    }
    assert!(matches!(parse_command(&words("ir")), Command::Go(None)));
    match parse_command(&words("coger cuerda")) {
        Command::Take(t) => assert_eq!(t, "cuerda"),
        other => panic!("unexpected command: {:?}", other),
    }
    match parse_command(&words("1")) {
        Command::Attack(t) => assert_eq!(t, "1"),
        other => panic!("unexpected command: {:?}", other),
    }
    match parse_command(&words("equipar aragorn arma")) {
        Command::Equip(v) => assert_eq!(v, vec!["aragorn".to_string(), "arma".to_string()]),
        other => panic!("unexpected command: {:?}", other),
    }
    assert!(matches!(parse_command(&words("inventario")), Command::Inventory));
    assert!(matches!(parse_command(&words("buscar")), Command::Search));
    assert!(matches!(parse_command(&words("salir")), Command::Salir));
    assert!(matches!(parse_command(&words("bailar")), Command::Look));
    assert!(matches!(parse_command(&Vec::new()), Command::Look));
}

#[test]
fn equipped_items_are_recognized_in_the_inventory() {
    let mut player = woodspring::player::Player::new(vec![Character::new(Class::Fighter)]);
    let item = Item::new_equipment("espada", "una espada de acero", true, EquipmentType::Weapon(WeaponType::Medium));
    player.inventory.push(item);
    assert!(!player.item_is_equipped(&player.inventory[0]));
    let args = vec!["arma".to_string()];
    assert!(matches!(player.execute_equip(&args), woodspring::player::EquipOutcome::Equipped));
    let probe = Item::new_equipment("espada", "una espada de acero", true, EquipmentType::Weapon(WeaponType::Medium));
    assert!(player.item_is_equipped(&probe));
}
