//! Party members: classes, their traits, equipment slots and the
//! per-class combat bonus rules.
use vstd::prelude::*;
use vstd::string::{StrSliceExecFns, StringExecFns};
use crate::object::NPCTag;
use crate::text::{lower_of, lowercase, str_eq, trim_of, trim_str};

verus! {

/// Upper bound on a character level that keeps every bonus computation
/// inside `i32`; the dice-gated leveling rule never gets anywhere near it.
pub const LEVEL_LIMIT: u32 = 0x7fff_fffe;

#[derive(Debug, Clone, Copy, PartialEq, Eq, Hash, Structural)]
pub enum CharacterTrait {
    Strong,
    Agile,
    Tough,
    Precise,
    ShieldMaster,
    Stealthy,
    Perceptive,
    Lucky,
    Spellcaster,
    Healer,
    Thief,
    Berserker,
    NaturalArmor,
    ForestFriend,
    MountainBorn,
    Nimble,
    Warrior,
    Wizard,
    Rogue,
    Cleric,
    Barbarian,
    Dwarf,
    Elf,
    Halfling,
}

#[derive(Debug, Clone, Copy, PartialEq, Eq, Structural)]
pub enum WeaponType {
    Light,
    Medium,
    Heavy,
}

#[derive(Debug, Clone, Copy, PartialEq, Eq, Structural)]
pub enum ArmorType {
    Light,
    Heavy,
}

#[derive(Debug, Clone, Copy, PartialEq, Eq, Structural)]
pub enum EquipmentType {
    Basic,
    Weapon(WeaponType),
    Shield,
    Armor(ArmorType),
    Bow,
}

#[derive(Debug, Clone)]
pub struct Equipment {
    pub name: String,
    pub equipment_type: EquipmentType,
}

#[derive(Debug, Clone, Copy, PartialEq, Eq, Structural)]
pub enum Class {
    Fighter,
    Cleric,
    Rogue,
    Wizard,
    Barbarian,
    Elf,
    Dwarf,
    Halfling,
}

/// The race or vocation trait that each class carries.
pub open spec fn spec_class_trait(class: Class) -> CharacterTrait {
    match class {
        Class::Fighter => CharacterTrait::Warrior,
        Class::Cleric => CharacterTrait::Cleric,
        Class::Rogue => CharacterTrait::Rogue,
        Class::Wizard => CharacterTrait::Wizard,
        Class::Barbarian => CharacterTrait::Barbarian,
        Class::Elf => CharacterTrait::Elf,
        Class::Dwarf => CharacterTrait::Dwarf,
        Class::Halfling => CharacterTrait::Halfling,
    }
}

/// The name under which each class is shown to the player.
pub open spec fn spec_class_display(class: Class) -> Seq<char> {
    match class {
        Class::Fighter => "Guerrero"@,
        Class::Cleric => "Clérigo"@,
        Class::Rogue => "Pícaro"@,
        Class::Wizard => "Mago"@,
        Class::Barbarian => "Bárbaro"@,
        Class::Elf => "Elfo"@,
        Class::Dwarf => "Enano"@,
        Class::Halfling => "Mediano"@,
    }
}

/// Maximum hit points of a member of `class` at `level`.
pub open spec fn spec_hit_points(class: Class, level: u32) -> int {
    level + (match class {
        Class::Fighter => 6int,
        Class::Cleric => 4int,
        Class::Rogue => 3int,
        Class::Wizard => 2int,
        Class::Barbarian => 7int,
        Class::Elf => 4int,
        Class::Dwarf => 5int,
        Class::Halfling => 3int,
    })
}

impl Class {
    pub fn get_traits(&self) -> (r: Vec<CharacterTrait>)
        ensures
            r@ =~= seq![spec_class_trait(*self)],
    {
        let mut traits: Vec<CharacterTrait> = Vec::new();
        match self {
            Class::Fighter => traits.push(CharacterTrait::Warrior),
            Class::Cleric => traits.push(CharacterTrait::Cleric),
            Class::Rogue => traits.push(CharacterTrait::Rogue),
            Class::Wizard => traits.push(CharacterTrait::Wizard),
            Class::Barbarian => traits.push(CharacterTrait::Barbarian),
            Class::Elf => traits.push(CharacterTrait::Elf),
            Class::Dwarf => traits.push(CharacterTrait::Dwarf),
            Class::Halfling => traits.push(CharacterTrait::Halfling),
        }
        traits
    }

    /// The player-facing name of the class.
    pub fn display_name(&self) -> (r: String)
        ensures
            r@ == spec_class_display(*self),
    {
        match self {
            Class::Fighter => String::from_str("Guerrero"),
            Class::Cleric => String::from_str("Clérigo"),
            Class::Rogue => String::from_str("Pícaro"),
            Class::Wizard => String::from_str("Mago"),
            Class::Barbarian => String::from_str("Bárbaro"),
            Class::Elf => String::from_str("Elfo"),
            Class::Dwarf => String::from_str("Enano"),
            Class::Halfling => String::from_str("Mediano"),
        }
    }
}

#[derive(Debug, Clone)]
pub struct Character {
    pub name: String,
    pub class: Class,
    pub hit_points: u32,
    pub max_hit_points: u32,
    pub level: u32,
    pub weapon: Option<Equipment>,
    pub shield: Option<Equipment>,
    pub armor: Option<Equipment>,
    pub bow: Option<Equipment>,
    pub traits: Vec<CharacterTrait>,
}

/// Whether `names` holds a string whose characters are `n`.
pub open spec fn names_contain(names: Seq<String>, n: Seq<char>) -> bool {
    exists|i: int| 0 <= i < names.len() && names[i]@ == n
}

impl Character {
    /// A character is well formed when its hit points respect the
    /// maximum, its level lies in the range the leveling rules can
    /// produce, and the maximum is the one its class and level call for.
    pub open spec fn wf(&self) -> bool {
        &&& self.hit_points <= self.max_hit_points
        &&& 1 <= self.level <= LEVEL_LIMIT
        &&& self.max_hit_points == spec_hit_points(self.class, self.level)
    }

    /// Resolves one leveling roll: the character gains a level exactly
    /// when the die strictly exceeds the current level, and then the
    /// maximum grows by one and the hit points refill to it; any other
    /// roll changes nothing.
    pub fn apply_level_roll(&mut self, roll: u8) -> (leveled: bool)
        requires
            old(self).wf(),
            1 <= roll <= 6,
        ensures
            leveled == (roll > old(self).level),
            leveled ==> *final(self) == (Character {
                level: (old(self).level + 1) as u32,
                max_hit_points: (old(self).max_hit_points + 1) as u32,
                hit_points: (old(self).max_hit_points + 1) as u32,
                ..*old(self)
            }),
            !leveled ==> *final(self) == *old(self),
            final(self).wf(),
            final(self).level >= old(self).level,
            final(self).level <= old(self).level + 1,
    {
        if (roll as u32) > self.level {
            self.level = self.level + 1;
            self.max_hit_points = self.max_hit_points + 1;
            self.hit_points = self.max_hit_points;
            true
        } else {
            false
        }
    }

    pub fn new(class: Class) -> (r: Character)
        ensures
            r.class == class,
            r.level == 1,
            r.max_hit_points == spec_hit_points(class, 1),
            r.hit_points == r.max_hit_points,
            r.weapon is None && r.shield is None && r.armor is None && r.bow is None,
            r.traits@ =~= seq![spec_class_trait(class)],
            r.name@ == "Aventurero "@ + spec_class_display(class),
            r.wf(),
    {
        let max_hit_points = Self::calculate_hit_points(&class, 1);
        let traits = class.get_traits();
        let mut name = String::from_str("Aventurero ");
        let display = class.display_name();
        name.append(display.as_str());
        Character {
            name,
            class,
            hit_points: max_hit_points,
            max_hit_points,
            level: 1,
            weapon: None,
            shield: None,
            armor: None,
            bow: None,
            traits,
        }
    }

    /// Renames the character. The name must not be blank and must not
    /// collide with a name already in use; on either failure nothing
    /// changes and the corresponding message is returned.
    pub fn set_name(&mut self, name: String, existing_names: &Vec<String>) -> (r: Result<
        (),
        String,
    >)
        ensures
            r is Ok <==> (trim_of(name@).len() != 0 && !names_contain(existing_names@, name@)),
            r is Ok ==> *final(self) == (Character { name, ..*old(self) }),
            r is Err ==> *final(self) == *old(self),
            trim_of(name@).len() == 0 ==> (r matches Err(e) && e@ == "El nombre no puede estar vacío"@),
            trim_of(name@).len() != 0 && names_contain(existing_names@, name@) ==> (r matches Err(e)
                && e@ == "Ya existe un personaje con el nombre: "@ + name@),
    {
        let trimmed = trim_str(name.as_str());
        if trimmed.as_str().unicode_len() == 0 {
            proof {
                reveal_strlit("El nombre no puede estar vacío");
            }
            return Err(String::from_str("El nombre no puede estar vacío"));
        }
        let mut i: usize = 0;
        while i < existing_names.len()
            invariant
                0 <= i <= existing_names@.len(),
                trim_of(name@).len() != 0,
                forall|j: int| 0 <= j < i ==> existing_names@[j]@ != name@,
            decreases existing_names@.len() - i,
        {
            if existing_names[i] == name {
                let mut msg = String::from_str("Ya existe un personaje con el nombre: ");
                msg.append(name.as_str());
                return Err(msg);
            }
            i += 1;
        }
        self.name = name;
        Ok(())
    }

    pub fn calculate_hit_points(class: &Class, level: u32) -> (r: u32)
        requires
            level <= LEVEL_LIMIT,
        ensures
            r == spec_hit_points(*class, level),
    {
        match class {
            Class::Fighter => level + 6,
            Class::Cleric => level + 4,
            Class::Rogue => level + 3,
            Class::Wizard => level + 2,
            Class::Barbarian => level + 7,
            Class::Elf => level + 4,
            Class::Dwarf => level + 5,
            Class::Halfling => level + 3,
        }
    }

    /// Puts `equipment` into the slot its type calls for and hands back
    /// whatever was there; a basic item fits no slot and is returned as
    /// not equipped.
    pub fn equip(&mut self, equipment: Equipment) -> (r: Option<Equipment>)
        ensures
            (equipment.equipment_type matches EquipmentType::Weapon(_)) ==> (r == old(self).weapon
                && *final(self) == (Character { weapon: Some(equipment), ..*old(self) })),
            equipment.equipment_type is Shield ==> (r == old(self).shield && *final(self) == (
            Character { shield: Some(equipment), ..*old(self) })),
            (equipment.equipment_type matches EquipmentType::Armor(_)) ==> (r == old(self).armor
                && *final(self) == (Character { armor: Some(equipment), ..*old(self) })),
            equipment.equipment_type is Bow ==> (r == old(self).bow && *final(self) == (Character {
                bow: Some(equipment),
                ..*old(self)
            })),
            equipment.equipment_type is Basic ==> (r is None && *final(self) == *old(self)),
    {
        let et = equipment.equipment_type;
        match et {
            EquipmentType::Weapon(_) => {
                let prev = self.weapon.take();
                self.weapon = Some(equipment);
                prev
            },
            EquipmentType::Shield => {
                let prev = self.shield.take();
                self.shield = Some(equipment);
                prev
            },
            EquipmentType::Armor(_) => {
                let prev = self.armor.take();
                self.armor = Some(equipment);
                prev
            },
            EquipmentType::Bow => {
                let prev = self.bow.take();
                self.bow = Some(equipment);
                prev
            },
            EquipmentType::Basic => None,
        }
    }

    /// Empties the slot that `equipment_type` names and hands back its content.
    pub fn unequip(&mut self, equipment_type: EquipmentType) -> (r: Option<Equipment>)
        ensures
            (equipment_type matches EquipmentType::Weapon(_)) ==> (r == old(self).weapon && *final(self) == (Character { weapon: None, ..*old(self) })),
            equipment_type is Shield ==> (r == old(self).shield && *final(self) == (Character {
                shield: None,
                ..*old(self)
            })),
            (equipment_type matches EquipmentType::Armor(_)) ==> (r == old(self).armor && *final(self) == (Character { armor: None, ..*old(self) })),
            equipment_type is Bow ==> (r == old(self).bow && *final(self) == (Character {
                bow: None,
                ..*old(self)
            })),
            equipment_type is Basic ==> (r is None && *final(self) == *old(self)),
    {
        match equipment_type {
            EquipmentType::Weapon(_) => self.weapon.take(),
            EquipmentType::Shield => self.shield.take(),
            EquipmentType::Armor(_) => self.armor.take(),
            EquipmentType::Bow => self.bow.take(),
            EquipmentType::Basic => None,
        }
    }

    pub fn get_equipment_attack_bonus(&self) -> (r: Option<i32>)
        ensures
            r is Some <==> self.weapon is Some,
            self.weapon matches Some(w) ==> r matches Some(b) && b == spec_weapon_attack_bonus(w),
    {
        match &self.weapon {
            None => None,
            Some(weapon) => {
                let bonus: i32 = match weapon.equipment_type {
                    EquipmentType::Weapon(WeaponType::Light) => -1,
                    EquipmentType::Weapon(WeaponType::Medium) => 0,
                    EquipmentType::Weapon(WeaponType::Heavy) => 1,
                    _ => 0,
                };
                Some(bonus)
            },
        }
    }

    pub fn get_equipment_defense_bonus(&self) -> (r: i32)
        ensures
            r == spec_equipment_defense_bonus(*self),
            0 <= r <= 3,
    {
        let mut bonus: i32 = 0;
        if let Some(armor) = &self.armor {
            match armor.equipment_type {
                EquipmentType::Armor(ArmorType::Light) => {
                    bonus = bonus + 1;
                },
                EquipmentType::Armor(ArmorType::Heavy) => {
                    bonus = bonus + 2;
                },
                _ => {},
            }
        }
        if self.shield.is_some() {
            bonus = bonus + 1;
        }
        bonus
    }

    pub fn get_class_defense_bonus(&self, enemy_tags: &Vec<NPCTag>) -> (r: i32)
        ensures
            r == spec_class_defense_bonus(self.class, enemy_tags@),
            0 <= r <= 1,
    {
        let sturdy = match self.class {
            Class::Halfling => true,
            Class::Dwarf => true,
            _ => false,
        };
        if sturdy && (tags_contain(enemy_tags, NPCTag::Troll) || tags_contain(
            enemy_tags,
            NPCTag::Ogre,
        ) || tags_contain(enemy_tags, NPCTag::Giant)) {
            1
        } else {
            0
        }
    }

    pub fn get_class_attack_bonus(&self, enemies_outnumbered: bool, enemy_tags: &Vec<NPCTag>) -> (r:
        i32)
        requires
            self.level <= LEVEL_LIMIT,
        ensures
            r == spec_class_attack_bonus(*self, enemies_outnumbered, enemy_tags@),
    {
        let is_two_handed = match &self.weapon {
            Some(weapon) => (weapon.equipment_type == EquipmentType::Weapon(WeaponType::Heavy)),
            None => false,
        };
        let is_using_bow = match &self.weapon {
            Some(weapon) => (weapon.equipment_type == EquipmentType::Bow),
            None => false,
        };

        let level = self.level as i32;
        let mut bonus: i32 = match self.class {
            Class::Fighter => level,
            Class::Cleric => if tags_contain(enemy_tags, NPCTag::Undead) {
                level
            } else {
                level / 2
            },
            Class::Rogue => if enemies_outnumbered {
                level
            } else {
                0
            },
            Class::Wizard => 0,
            Class::Barbarian => level,
            Class::Elf => if is_two_handed {
                0
            } else {
                level
            },
            Class::Dwarf => if is_using_bow {
                0
            } else {
                level
            },
            Class::Halfling => 0,
        };

        if self.class == Class::Elf && tags_contain(enemy_tags, NPCTag::Orc) {
            bonus = bonus + 1;
        }
        if self.class == Class::Dwarf && tags_contain(enemy_tags, NPCTag::Goblin) {
            bonus = bonus + 1;
        }
        bonus
    }

    /// Applies `damage`, never letting hit points fall below zero, and
    /// reports how much was actually lost.
    pub fn take_damage(&mut self, damage: u32) -> (r: u32)
        ensures
            r == if damage <= old(self).hit_points {
                damage as int
            } else {
                old(self).hit_points as int
            },
            *final(self) == (Character {
                hit_points: (old(self).hit_points - r) as u32,
                ..*old(self)
            }),
    {
        let actual_damage = if damage < self.hit_points {
            damage
        } else {
            self.hit_points
        };
        self.hit_points = self.hit_points - actual_damage;
        actual_damage
    }

    pub fn is_alive(&self) -> (r: bool)
        ensures
            r == (self.hit_points > 0),
    {
        self.hit_points > 0
    }

    pub fn has_trait(&self, trait_type: &CharacterTrait) -> (r: bool)
        ensures
            r == self.traits@.contains(*trait_type),
    {
        let mut i: usize = 0;
        while i < self.traits.len()
            invariant
                0 <= i <= self.traits@.len(),
                forall|j: int| 0 <= j < i ==> self.traits@[j] != *trait_type,
            decreases self.traits@.len() - i,
        {
            if self.traits[i] == *trait_type {
                return true;
            }
            i += 1;
        }
        false
    }
}

/// Whether `tags` holds `t`.
pub fn tags_contain(tags: &Vec<NPCTag>, t: NPCTag) -> (r: bool)
    ensures
        r == tags@.contains(t),
{
    let mut i: usize = 0;
    while i < tags.len()
        invariant
            0 <= i <= tags@.len(),
            forall|j: int| 0 <= j < i ==> tags@[j] != t,
        decreases tags@.len() - i,
    {
        if tags[i] == t {
            return true;
        }
        i += 1;
    }
    false
}

/// Flat attack bonus of the weapon in the weapon slot: light −1,
/// medium 0, heavy +1; anything else grants nothing.
pub open spec fn spec_weapon_attack_bonus(w: Equipment) -> int {
    match w.equipment_type {
        EquipmentType::Weapon(WeaponType::Light) => -1,
        EquipmentType::Weapon(WeaponType::Medium) => 0,
        EquipmentType::Weapon(WeaponType::Heavy) => 1,
        _ => 0,
    }
}

/// Defense granted by armor (light +1, heavy +2) and shield (+1).
pub open spec fn spec_equipment_defense_bonus(c: Character) -> int {
    (match c.armor {
        Some(a) => match a.equipment_type {
            EquipmentType::Armor(ArmorType::Light) => 1int,
            EquipmentType::Armor(ArmorType::Heavy) => 2int,
            _ => 0int,
        },
        None => 0int,
    }) + if c.shield is Some {
        1int
    } else {
        0int
    }
}

/// Halflings and dwarves know how to stand against trolls, ogres and giants.
pub open spec fn spec_class_defense_bonus(class: Class, enemy_tags: Seq<NPCTag>) -> int {
    if (class == Class::Halfling || class == Class::Dwarf) && (enemy_tags.contains(NPCTag::Troll)
        || enemy_tags.contains(NPCTag::Ogre) || enemy_tags.contains(NPCTag::Giant)) {
        1
    } else {
        0
    }
}

/// The per-class attack bonus table: fighters and barbarians add their
/// level; clerics add it against the undead and half of it otherwise;
/// rogues add it only when the enemies outnumber the party; elves lose
/// it with a two-handed weapon but gain +1 against orcs; dwarves lose it
/// with a bow but gain +1 against goblins; wizards and halflings get none.
pub open spec fn spec_class_attack_bonus(
    c: Character,
    enemies_outnumbered: bool,
    enemy_tags: Seq<NPCTag>,
) -> int {
    let two_handed = (c.weapon matches Some(w) && w.equipment_type == EquipmentType::Weapon(
        WeaponType::Heavy,
    ));
    let using_bow = (c.weapon matches Some(w) && w.equipment_type == EquipmentType::Bow);
    let base: int = match c.class {
        Class::Fighter => c.level as int,
        Class::Cleric => if enemy_tags.contains(NPCTag::Undead) {
            c.level as int
        } else {
            c.level as int / 2
        },
        Class::Rogue => if enemies_outnumbered {
            c.level as int
        } else {
            0
        },
        Class::Wizard => 0,
        Class::Barbarian => c.level as int,
        Class::Elf => if two_handed {
            0
        } else {
            c.level as int
        },
        Class::Dwarf => if using_bow {
            0
        } else {
            c.level as int
        },
        Class::Halfling => 0,
    };
    base + (if c.class == Class::Elf && enemy_tags.contains(NPCTag::Orc) {
        1int
    } else {
        0int
    }) + (if c.class == Class::Dwarf && enemy_tags.contains(NPCTag::Goblin) {
        1int
    } else {
        0int
    })
}

impl Equipment {
    pub fn new(name: String, equipment_type: EquipmentType) -> (r: Equipment)
        ensures
            r.name == name,
            r.equipment_type == equipment_type,
    {
        Equipment { name, equipment_type }
    }

    pub fn get_bonus(&self) -> (r: i32)
        ensures
            r == spec_equipment_bonus(self.equipment_type),
    {
        match self.equipment_type {
            EquipmentType::Weapon(WeaponType::Light) => -1,
            EquipmentType::Weapon(WeaponType::Medium) => 0,
            EquipmentType::Weapon(WeaponType::Heavy) => 1,
            EquipmentType::Shield => 1,
            EquipmentType::Armor(ArmorType::Light) => 1,
            EquipmentType::Armor(ArmorType::Heavy) => 2,
            _ => -2,
        }
    }
}

/// The flat bonus a piece of equipment carries in its own right.
pub open spec fn spec_equipment_bonus(et: EquipmentType) -> int {
    match et {
        EquipmentType::Weapon(WeaponType::Light) => -1,
        EquipmentType::Weapon(WeaponType::Medium) => 0,
        EquipmentType::Weapon(WeaponType::Heavy) => 1,
        EquipmentType::Shield => 1,
        EquipmentType::Armor(ArmorType::Light) => 1,
        EquipmentType::Armor(ArmorType::Heavy) => 2,
        _ => -2,
    }
}

/// Builds a character from the words of a `nuevo` command: a name and a
/// class, where only warriors, wizards and rogues can be newly enrolled.
pub fn parse_new_character(words: &Vec<String>, existing_names: &Vec<String>) -> (r: Result<
    Character,
    String,
>)
    ensures
        words@.len() != 2 ==> (r matches Err(e) && e@ == "Formato incorrecto. Uso: nuevo <nombre> <clase>"@),
        r is Ok ==> words@.len() == 2,
        r is Ok ==> (lower_of(words@[1]@) == "guerrero"@ || lower_of(words@[1]@) == "mago"@
            || lower_of(words@[1]@) == "picaro"@),
        r matches Ok(c) ==> c.name@ == words@[0]@ && c.level == 1 && c.wf(),
        r matches Ok(c) ==> (lower_of(words@[1]@) == "guerrero"@ ==> c.class == Class::Fighter)
            && (lower_of(words@[1]@) != "guerrero"@ && lower_of(words@[1]@) == "mago"@
            ==> c.class == Class::Wizard) && (lower_of(words@[1]@) != "guerrero"@ && lower_of(
            words@[1]@,
        ) != "mago"@ && lower_of(words@[1]@) == "picaro"@ ==> c.class == Class::Rogue),
        words@.len() == 2 && !(lower_of(words@[1]@) == "guerrero"@ || lower_of(words@[1]@)
            == "mago"@ || lower_of(words@[1]@) == "picaro"@) ==> (r matches Err(e) && e@ == "Clase no válida. Clases disponibles: GUERRERO, MAGO, PICARO"@),
        words@.len() == 2 && (lower_of(words@[1]@) == "guerrero"@ || lower_of(words@[1]@)
            == "mago"@ || lower_of(words@[1]@) == "picaro"@) ==> (r is Ok <==> (trim_of(
            words@[0]@,
        ).len() != 0 && !names_contain(existing_names@, words@[0]@))),
        words@.len() == 2 && (lower_of(words@[1]@) == "guerrero"@ || lower_of(words@[1]@)
            == "mago"@ || lower_of(words@[1]@) == "picaro"@) && trim_of(words@[0]@).len() == 0
            ==> (r matches Err(e) && e@ == "El nombre no puede estar vacío"@),
        words@.len() == 2 && (lower_of(words@[1]@) == "guerrero"@ || lower_of(words@[1]@)
            == "mago"@ || lower_of(words@[1]@) == "picaro"@) && trim_of(words@[0]@).len() != 0
            && names_contain(existing_names@, words@[0]@) ==> (r matches Err(e) && e@ == "Ya existe un personaje con el nombre: "@ + words@[0]@),
{
    if words.len() != 2 {
        return Err(String::from_str("Formato incorrecto. Uso: nuevo <nombre> <clase>"));
    }
    let name = words[0].clone();
    let class_str = lowercase(words[1].as_str());

    let class: Class = if str_eq(class_str.as_str(), "guerrero") {
        Class::Fighter
    } else if str_eq(class_str.as_str(), "mago") {
        Class::Wizard
    } else if str_eq(class_str.as_str(), "picaro") {
        Class::Rogue
    } else {
        return Err(String::from_str("Clase no válida. Clases disponibles: GUERRERO, MAGO, PICARO"));
    };

    let mut character = Character::new(class);
    match character.set_name(name, existing_names) {
        Ok(_) => Ok(character),
        Err(e) => Err(e),
    }
}

} // verus!
