//! The world catalog: locations and their content, items, groups of
//! non-player characters, and the conditional passages between places.
use vstd::prelude::*;
use crate::character::{Equipment, EquipmentType};
use crate::text::str_eq;

verus! {

#[derive(Debug)]
pub struct GameObject {
    pub tag: String,
    pub description: String,
    pub long_description: String,
    pub visible: bool,
}

impl Clone for GameObject {
    fn clone(&self) -> (r: Self)
        ensures
            r == *self,
    {
        GameObject {
            tag: self.tag.clone(),
            description: self.description.clone(),
            long_description: self.long_description.clone(),
            visible: self.visible,
        }
    }
}

#[derive(Debug, Clone, Copy, PartialEq, Eq, Structural)]
pub enum Attitude {
    Hostile,
    Neutral,
    Friendly,
}

#[derive(Debug, Clone)]
pub struct RoomContent {
    pub items: Vec<Item>,
    pub hidden_items: Vec<Item>,
    pub npcs: Vec<String>,
    pub is_visited: bool,
    pub is_locked: bool,
    pub required_key: Option<String>,
}

#[derive(Debug, Clone)]
pub struct Location {
    pub base: GameObject,
    pub connections: Vec<String>,
    pub content: RoomContent,
}

#[derive(Debug)]
pub struct Item {
    pub base: GameObject,
    pub is_dropped: bool,
    pub is_equipment: bool,
    pub equipment_type: Option<EquipmentType>,
}

impl Clone for Item {
    fn clone(&self) -> (r: Self)
        ensures
            r == *self,
    {
        Item {
            base: self.base.clone(),
            is_dropped: self.is_dropped,
            is_equipment: self.is_equipment,
            equipment_type: self.equipment_type,
        }
    }
}

#[derive(Debug, Clone, Copy, PartialEq, Eq, Hash, Structural)]
pub enum NPCTag {
    Human,
    Elf,
    Dwarf,
    Orc,
    Goblin,
    Halfling,
    Guard,
    Monster,
    Undead,
    Beast,
    Merchant,
    Bandit,
    Troll,
    Ogre,
    Giant,
    Vermin,
    Friendly,
    Neutral,
    Hostile,
}

#[derive(Debug, Clone)]
pub struct NPC {
    pub base: GameObject,
    pub location: String,
    pub dialogue: Vec<String>,
    pub attitude: Attitude,
    pub level: u8,
    pub count: u8,
    pub tags: Vec<NPCTag>,
}

#[derive(Debug, Clone)]
pub struct Passage {
    pub base: GameObject,
    pub from: String,
    pub to: String,
    pub requires_item: bool,
    pub item_tag: Option<String>,
    pub requires_key: bool,
    pub key_tag: Option<String>,
    pub has_riddle: bool,
    pub riddle: Option<String>,
    pub riddle_answer: Option<String>,
}

/// The items of `items` whose tag is not `tag`, in order.
pub open spec fn items_without_tag(items: Seq<Item>, tag: Seq<char>) -> Seq<Item> {
    items.filter(|it: Item| it.base.tag@ != tag)
}


/// The strings of `names` other than `tag`, in order.
pub open spec fn names_without(names: Seq<String>, tag: Seq<char>) -> Seq<String> {
    names.filter(|t: String| t@ != tag)
}

/// The groups of `npcs` whose home is `loc`, in order.
pub open spec fn npcs_at(npcs: Seq<NPC>, loc: Seq<char>) -> Seq<NPC> {
    npcs.filter(|n: NPC| n.location@ == loc)
}

/// The passages of `ps` that leave from `loc`, in order.
pub open spec fn passages_from(ps: Seq<Passage>, loc: Seq<char>) -> Seq<Passage> {
    ps.filter(|p: Passage| p.from@ == loc)
}

proof fn lemma_items_without_tag_push(items: Seq<Item>, tag: Seq<char>, it: Item)
    ensures
        items_without_tag(items.push(it), tag) == if it.base.tag@ != tag {
            items_without_tag(items, tag).push(it)
        } else {
            items_without_tag(items, tag)
        },
{
    broadcast use Seq::lemma_filter_push;

}


pub proof fn lemma_names_without_push(names: Seq<String>, tag: Seq<char>, s: String)
    ensures
        names_without(names.push(s), tag) == if s@ != tag {
            names_without(names, tag).push(s)
        } else {
            names_without(names, tag)
        },
{
    broadcast use Seq::lemma_filter_push;

}

proof fn lemma_npcs_at_push(npcs: Seq<NPC>, loc: Seq<char>, n: NPC)
    ensures
        npcs_at(npcs.push(n), loc) == if n.location@ == loc {
            npcs_at(npcs, loc).push(n)
        } else {
            npcs_at(npcs, loc)
        },
{
    broadcast use Seq::lemma_filter_push;

}

proof fn lemma_passages_from_push(ps: Seq<Passage>, loc: Seq<char>, p: Passage)
    ensures
        passages_from(ps.push(p), loc) == if p.from@ == loc {
            passages_from(ps, loc).push(p)
        } else {
            passages_from(ps, loc)
        },
{
    broadcast use Seq::lemma_filter_push;

}

impl GameObject {
    pub fn new(tag: &str, description: &str, visible: bool) -> (r: Self)
        ensures
            r.tag@ == tag@,
            r.description@ == description@,
            r.long_description@ == description@,
            r.visible == visible,
    {
        GameObject {
            tag: tag.to_owned(),
            description: description.to_owned(),
            long_description: description.to_owned(),
            visible,
        }
    }

    pub fn with_long_description(self, long_description: &str) -> (r: Self)
        ensures
            r == (GameObject { long_description: r.long_description, ..self }),
            r.long_description@ == long_description@,
    {
        GameObject { long_description: long_description.to_owned(), ..self }
    }
}

impl RoomContent {
    pub fn new() -> (r: Self)
        ensures
            r.items@.len() == 0,
            r.hidden_items@.len() == 0,
            r.npcs@.len() == 0,
            !r.is_visited,
            !r.is_locked,
            r.required_key is None,
    {
        RoomContent {
            items: Vec::new(),
            hidden_items: Vec::new(),
            npcs: Vec::new(),
            is_visited: false,
            is_locked: false,
            required_key: None,
        }
    }

    pub fn add_item(&mut self, item: Item)
        ensures
            *final(self) == (RoomContent { items: final(self).items, ..*old(self) }),
            final(self).items@ == old(self).items@.push(item),
    {
        self.items.push(item);
    }

    pub fn add_hidden_item(&mut self, item: Item)
        ensures
            *final(self) == (RoomContent { hidden_items: final(self).hidden_items, ..*old(self) }),
            final(self).hidden_items@ == old(self).hidden_items@.push(item),
    {
        self.hidden_items.push(item);
    }

    /// Drops every item whose tag is `item_tag` from the visible items.
    pub fn remove_item(&mut self, item_tag: &str)
        ensures
            *final(self) == (RoomContent { items: final(self).items, ..*old(self) }),
            final(self).items@ == items_without_tag(old(self).items@, item_tag@),
    {
        let mut kept: Vec<Item> = Vec::new();
        let n = self.items.len();
        let mut i: usize = 0;
        while i < n
            invariant
                n == self.items@.len(),
                0 <= i <= n,
                kept@ == items_without_tag(self.items@.subrange(0, i as int), item_tag@),
            decreases n - i,
        {
            proof {
                assert(self.items@.subrange(0, i + 1 as int) =~= self.items@.subrange(
                    0,
                    i as int,
                ).push(self.items@[i as int]));
                lemma_items_without_tag_push(
                    self.items@.subrange(0, i as int),
                    item_tag@,
                    self.items@[i as int],
                );
            }
            if !str_eq(self.items[i].base.tag.as_str(), item_tag) {
                kept.push(self.items[i].clone());
            }
            i += 1;
        }
        proof {
            assert(self.items@.subrange(0, n as int) =~= self.items@);
        }
        self.items = kept;
    }

    /// Drops every item whose tag is `item_tag` from the hidden items.
    pub fn remove_hidden_item(&mut self, item_tag: &str)
        ensures
            *final(self) == (RoomContent { hidden_items: final(self).hidden_items, ..*old(self) }),
            final(self).hidden_items@ == items_without_tag(old(self).hidden_items@, item_tag@),
    {
        let mut kept: Vec<Item> = Vec::new();
        let n = self.hidden_items.len();
        let mut i: usize = 0;
        while i < n
            invariant
                n == self.hidden_items@.len(),
                0 <= i <= n,
                kept@ == items_without_tag(self.hidden_items@.subrange(0, i as int), item_tag@),
            decreases n - i,
        {
            proof {
                assert(self.hidden_items@.subrange(0, i + 1 as int) =~= self.hidden_items@.subrange(
                    0,
                    i as int,
                ).push(self.hidden_items@[i as int]));
                lemma_items_without_tag_push(
                    self.hidden_items@.subrange(0, i as int),
                    item_tag@,
                    self.hidden_items@[i as int],
                );
            }
            if !str_eq(self.hidden_items[i].base.tag.as_str(), item_tag) {
                kept.push(self.hidden_items[i].clone());
            }
            i += 1;
        }
        proof {
            assert(self.hidden_items@.subrange(0, n as int) =~= self.hidden_items@);
        }
        self.hidden_items = kept;
    }

    /// Moves the first hidden item with the given tag into the visible
    /// items and hands a copy back; with no such item nothing changes.
    pub fn reveal_hidden_item(&mut self, item_tag: &str) -> (r: Option<Item>)
        ensures
            r is Some <==> (exists|i: int|
                0 <= i < old(self).hidden_items@.len() && old(self).hidden_items@[i].base.tag@ == item_tag@),
            r matches Some(it) ==> (exists|i: int|
                {
                    &&& 0 <= i < old(self).hidden_items@.len()
                    &&& old(self).hidden_items@[i] == it
                    &&& it.base.tag@ == item_tag@
                    &&& (forall|j: int|
                        0 <= j < i ==> old(self).hidden_items@[j].base.tag@ != item_tag@)
                    &&& final(self).hidden_items@ == old(self).hidden_items@.remove(i)
                }),
            r is Some ==> final(self).items@ == old(self).items@.push(r->Some_0),
            r is Some ==> *final(self) == (RoomContent {
                items: final(self).items,
                hidden_items: final(self).hidden_items,
                ..*old(self)
            }),
            r is None ==> *final(self) == *old(self),
    {
        let n = self.hidden_items.len();
        let mut i: usize = 0;
        let mut found: Option<usize> = None;
        while i < n
            invariant
                n == self.hidden_items@.len(),
                0 <= i <= n,
                found matches Some(k) ==> 0 <= k < i && self.hidden_items@[k as int].base.tag@
                    == item_tag@ && (forall|j: int|
                    0 <= j < k ==> self.hidden_items@[j].base.tag@ != item_tag@),
                found is None ==> (forall|j: int|
                    0 <= j < i ==> self.hidden_items@[j].base.tag@ != item_tag@),
            decreases n - i,
        {
            if found.is_none() && str_eq(self.hidden_items[i].base.tag.as_str(), item_tag) {
                found = Some(i);
            }
            i += 1;
        }
        match found {
            Some(k) => {
                let item = self.hidden_items.remove(k);
                self.items.push(item.clone());
                Some(item)
            },
            None => None,
        }
    }

    pub fn find_hidden_item(&self, item_tag: &str) -> (r: Option<&Item>)
        ensures
            r is Some <==> (exists|i: int|
                0 <= i < self.hidden_items@.len() && self.hidden_items@[i].base.tag@ == item_tag@),
            r matches Some(it) ==> it.base.tag@ == item_tag@ && self.hidden_items@.contains(*it),
    {
        let n = self.hidden_items.len();
        let mut i: usize = 0;
        while i < n
            invariant
                n == self.hidden_items@.len(),
                0 <= i <= n,
                forall|j: int| 0 <= j < i ==> self.hidden_items@[j].base.tag@ != item_tag@,
            decreases n - i,
        {
            if str_eq(self.hidden_items[i].base.tag.as_str(), item_tag) {
                return Some(&self.hidden_items[i]);
            }
            i += 1;
        }
        None
    }

    pub fn add_npc(&mut self, npc_tag: &str)
        ensures
            *final(self) == (RoomContent { npcs: final(self).npcs, ..*old(self) }),
            final(self).npcs@.len() == old(self).npcs@.len() + 1,
            final(self).npcs@ == old(self).npcs@.push(final(self).npcs@.last()),
            final(self).npcs@.last()@ == npc_tag@,
    {
        self.npcs.push(npc_tag.to_owned());
    }

    /// Drops every occurrence of `npc_tag` from the room's groups.
    pub fn remove_npc(&mut self, npc_tag: &str)
        ensures
            *final(self) == (RoomContent { npcs: final(self).npcs, ..*old(self) }),
            final(self).npcs@ == names_without(old(self).npcs@, npc_tag@),
    {
        let mut kept: Vec<String> = Vec::new();
        let n = self.npcs.len();
        let mut i: usize = 0;
        while i < n
            invariant
                n == self.npcs@.len(),
                0 <= i <= n,
                kept@ == names_without(self.npcs@.subrange(0, i as int), npc_tag@),
            decreases n - i,
        {
            proof {
                assert(self.npcs@.subrange(0, i + 1 as int) =~= self.npcs@.subrange(
                    0,
                    i as int,
                ).push(self.npcs@[i as int]));
                lemma_names_without_push(
                    self.npcs@.subrange(0, i as int),
                    npc_tag@,
                    self.npcs@[i as int],
                );
            }
            if !str_eq(self.npcs[i].as_str(), npc_tag) {
                kept.push(self.npcs[i].clone());
            }
            i += 1;
        }
        proof {
            assert(self.npcs@.subrange(0, n as int) =~= self.npcs@);
        }
        self.npcs = kept;
    }

    pub fn mark_as_visited(&mut self)
        ensures
            *final(self) == (RoomContent { is_visited: true, ..*old(self) }),
    {
        self.is_visited = true;
    }

    pub fn lock(&mut self, key_tag: Option<&str>)
        ensures
            *final(self) == (RoomContent {
                is_locked: true,
                required_key: final(self).required_key,
                ..*old(self)
            }),
            key_tag is Some <==> final(self).required_key is Some,
            key_tag matches Some(k) ==> (final(self).required_key matches Some(rk) && rk@ == k@),
    {
        self.is_locked = true;
        self.required_key = match key_tag {
            Some(k) => Some(k.to_owned()),
            None => None,
        };
    }

    pub fn unlock(&mut self)
        ensures
            *final(self) == (RoomContent { is_locked: false, required_key: None, ..*old(self) }),
    {
        self.is_locked = false;
        self.required_key = None;
    }
}

impl Location {
    pub fn new(tag: &str, description: &str, visible: bool) -> (r: Self)
        ensures
            r.base.tag@ == tag@,
            r.base.description@ == description@,
            r.base.long_description@ == description@,
            r.base.visible == visible,
            r.connections@.len() == 0,
            r.content.items@.len() == 0,
            r.content.hidden_items@.len() == 0,
            r.content.npcs@.len() == 0,
            !r.content.is_visited,
            !r.content.is_locked,
            r.content.required_key is None,
    {
        Location {
            base: GameObject::new(tag, description, visible),
            connections: Vec::new(),
            content: RoomContent::new(),
        }
    }

    pub fn add_connection(&mut self, passage_tag: &str)
        ensures
            *final(self) == (Location { connections: final(self).connections, ..*old(self) }),
            final(self).connections@.len() == old(self).connections@.len() + 1,
            final(self).connections@ == old(self).connections@.push(
                final(self).connections@.last(),
            ),
            final(self).connections@.last()@ == passage_tag@,
    {
        self.connections.push(passage_tag.to_owned());
    }

    pub fn with_long_description(self, long_description: &str) -> (r: Self)
        ensures
            r == (Location {
                base: (GameObject { long_description: r.base.long_description, ..self.base }),
                ..self
            }),
            r.base.long_description@ == long_description@,
    {
        let base = self.base.with_long_description(long_description);
        Location { base, ..self }
    }
}

impl Item {
    pub fn new(tag: &str, description: &str) -> (r: Self)
        ensures
            r.base.tag@ == tag@,
            r.base.description@ == description@,
            r.base.long_description@ == description@,
            r.base.visible,
            !r.is_dropped,
            !r.is_equipment,
            r.equipment_type is None,
    {
        Item {
            base: GameObject::new(tag, description, true),
            is_dropped: false,
            is_equipment: false,
            equipment_type: None,
        }
    }

    pub fn new_equipment(tag: &str, description: &str, is_equipment: bool, equipment_type:
        EquipmentType) -> (r: Self)
        ensures
            r.base.tag@ == tag@,
            r.base.description@ == description@,
            r.base.long_description@ == description@,
            r.base.visible,
            !r.is_dropped,
            r.is_equipment == is_equipment,
            r.equipment_type == Some(equipment_type),
    {
        Item {
            base: GameObject::new(tag, description, true),
            is_dropped: false,
            is_equipment,
            equipment_type: Some(equipment_type),
        }
    }

    /// An equipable item becomes a piece of equipment named after its
    /// description; other items convert to nothing.
    pub fn to_equipment(&self) -> (r: Option<Equipment>)
        ensures
            r is Some <==> (self.is_equipment && self.equipment_type is Some),
            r matches Some(e) ==> e == (Equipment {
                name: self.base.description,
                equipment_type: self.equipment_type->Some_0,
            }),
    {
        if self.is_equipment {
            match &self.equipment_type {
                Some(et) => Some(Equipment::new(self.base.description.clone(), *et)),
                None => None,
            }
        } else {
            None
        }
    }

    /// An unequipped piece of equipment turns back into a world item
    /// tagged and described by its name.
    pub fn from_equipment(equipment: Equipment) -> (r: Self)
        ensures
            r.base.tag@ == equipment.name@,
            r.base.description@ == equipment.name@,
            r.base.visible,
            !r.is_dropped,
            r.is_equipment,
            r.equipment_type == Some(equipment.equipment_type),
    {
        Item {
            base: GameObject::new(equipment.name.as_str(), equipment.name.as_str(), true),
            is_dropped: false,
            is_equipment: true,
            equipment_type: Some(equipment.equipment_type),
        }
    }
}

impl NPC {
    pub fn new(tag: &str, description: &str, location: &str, visible: bool) -> (r: Self)
        ensures
            r.base.tag@ == tag@,
            r.base.description@ == description@,
            r.base.long_description@ == description@,
            r.base.visible == visible,
            r.location@ == location@,
            r.dialogue@.len() == 0,
            r.attitude == Attitude::Neutral,
            r.level == 1,
            r.count == 1,
            r.tags@.len() == 0,
    {
        NPC {
            base: GameObject::new(tag, description, visible),
            location: location.to_owned(),
            dialogue: Vec::new(),
            attitude: Attitude::Neutral,
            level: 1,
            count: 1,
            tags: Vec::new(),
        }
    }

    pub fn with_attitude(self, attitude: Attitude) -> (r: Self)
        ensures
            r == (NPC { attitude, ..self }),
    {
        NPC { attitude, ..self }
    }

    /// Sets the group's difficulty, clamped into the 1 to 20 range.
    pub fn with_level(self, level: u8) -> (r: Self)
        ensures
            r == (NPC { level: r.level, ..self }),
            r.level == if level > 20 {
                20u8
            } else if level < 1 {
                1u8
            } else {
                level
            },
    {
        let clamped = if level > 20 {
            20
        } else if level < 1 {
            1
        } else {
            level
        };
        NPC { level: clamped, ..self }
    }

    pub fn with_count(self, count: u8) -> (r: Self)
        ensures
            r == (NPC { count, ..self }),
    {
        NPC { count, ..self }
    }

    pub fn add_dialogue(&mut self, text: &str)
        ensures
            *final(self) == (NPC { dialogue: final(self).dialogue, ..*old(self) }),
            final(self).dialogue@.len() == old(self).dialogue@.len() + 1,
            final(self).dialogue@ == old(self).dialogue@.push(final(self).dialogue@.last()),
            final(self).dialogue@.last()@ == text@,
    {
        self.dialogue.push(text.to_owned());
    }

    /// Adds `tag` unless the group already carries it.
    pub fn add_tag(&mut self, tag: NPCTag)
        ensures
            *final(self) == (NPC { tags: final(self).tags, ..*old(self) }),
            old(self).tags@.contains(tag) ==> final(self).tags@ == old(self).tags@,
            !old(self).tags@.contains(tag) ==> final(self).tags@ == old(self).tags@.push(tag),
    {
        if !crate::character::tags_contain(&self.tags, tag) {
            self.tags.push(tag);
        }
    }

    pub fn has_tag(&self, tag: &NPCTag) -> (r: bool)
        ensures
            r == self.tags@.contains(*tag),
    {
        crate::character::tags_contain(&self.tags, *tag)
    }
}

impl Passage {
    pub fn new(tag: &str, description: &str, from: &str, to: &str, visible: bool) -> (r: Self)
        ensures
            r.base.tag@ == tag@,
            r.base.description@ == description@,
            r.base.visible == visible,
            r.from@ == from@,
            r.to@ == to@,
            !r.requires_item,
            r.item_tag is None,
            !r.requires_key,
            r.key_tag is None,
            !r.has_riddle,
            r.riddle is None,
            r.riddle_answer is None,
    {
        Passage {
            base: GameObject::new(tag, description, visible),
            from: from.to_owned(),
            to: to.to_owned(),
            requires_item: false,
            item_tag: None,
            requires_key: false,
            key_tag: None,
            has_riddle: false,
            riddle: None,
            riddle_answer: None,
        }
    }

    pub fn with_item(self, item_tag: &str) -> (r: Self)
        ensures
            r == (Passage { requires_item: true, item_tag: r.item_tag, ..self }),
            (r.item_tag matches Some(t) && t@ == item_tag@),
    {
        Passage { requires_item: true, item_tag: Some(item_tag.to_owned()), ..self }
    }

    pub fn with_key(self, key_tag: &str) -> (r: Self)
        ensures
            r == (Passage { requires_key: true, key_tag: r.key_tag, ..self }),
            (r.key_tag matches Some(t) && t@ == key_tag@),
    {
        Passage { requires_key: true, key_tag: Some(key_tag.to_owned()), ..self }
    }

    pub fn with_riddle(self, riddle: &str, answer: &str) -> (r: Self)
        ensures
            r == (Passage {
                has_riddle: true,
                riddle: r.riddle,
                riddle_answer: r.riddle_answer,
                ..self
            }),
            (r.riddle matches Some(q) && q@ == riddle@),
            (r.riddle_answer matches Some(a) && a@ == answer@),
    {
        Passage {
            has_riddle: true,
            riddle: Some(riddle.to_owned()),
            riddle_answer: Some(answer.to_owned()),
            ..self
        }
    }
}

/// The read-only registry of everything the game world holds.
#[derive(Debug)]
pub struct World {
    pub locations: Vec<Location>,
    pub items: Vec<Item>,
    pub npcs: Vec<NPC>,
    pub passages: Vec<Passage>,
}

/// Whether some location in `locs` carries the tag `tag`.
pub open spec fn locs_have_tag(locs: Seq<Location>, tag: Seq<char>) -> bool {
    exists|i: int| 0 <= i < locs.len() && locs[i].base.tag@ == tag
}

impl World {
    /// Tags are unique within each register, so a lookup by tag is
    /// unambiguous.
    pub open spec fn wf(&self) -> bool {
        &&& (forall|i: int, j: int|
            0 <= i < j < self.locations@.len() ==> self.locations@[i].base.tag@
                != self.locations@[j].base.tag@)
        &&& (forall|i: int, j: int|
            0 <= i < j < self.items@.len() ==> self.items@[i].base.tag@
                != self.items@[j].base.tag@)
        &&& (forall|i: int, j: int|
            0 <= i < j < self.npcs@.len() ==> self.npcs@[i].base.tag@ != self.npcs@[j].base.tag@)
        &&& (forall|i: int, j: int|
            0 <= i < j < self.passages@.len() ==> self.passages@[i].base.tag@
                != self.passages@[j].base.tag@)
    }

    /// Every connection of every location names a tag that the catalog
    /// itself knows: the graph has no dangling edge.
    pub open spec fn closed_graph(&self) -> bool {
        forall|i: int, j: int|
            0 <= i < self.locations@.len() && 0 <= j < self.locations@[i].connections@.len()
                ==> locs_have_tag(self.locations@, (#[trigger] self.locations@[i].connections@[j])@)
    }

    /// An empty catalog, trivially well formed and closed.
    pub fn new() -> (r: World)
        ensures
            r.locations@.len() == 0,
            r.items@.len() == 0,
            r.npcs@.len() == 0,
            r.passages@.len() == 0,
            r.wf(),
            r.closed_graph(),
    {
        World { locations: Vec::new(), items: Vec::new(), npcs: Vec::new(), passages: Vec::new() }
    }

    /// Registers a location, provided its tag is new and it carries no
    /// connections yet; edges come later through `connect`, so the
    /// graph stays closed.
    pub fn add_location(&mut self, location: Location) -> (r: bool)
        ensures
            r == (!locs_have_tag(old(self).locations@, location.base.tag@)
                && location.connections@.len() == 0),
            r ==> *final(self) == (World { locations: final(self).locations, ..*old(self) })
                && final(self).locations@ == old(self).locations@.push(location),
            !r ==> *final(self) == *old(self),
            old(self).wf() ==> final(self).wf(),
            old(self).closed_graph() ==> final(self).closed_graph(),
    {
        let fresh = find_location(self, location.base.tag.as_str()).is_none();
        if !(fresh && location.connections.len() == 0) {
            return false;
        }
        let ghost locs0 = self.locations@;
        self.locations.push(location);
        proof {
            let locs1 = self.locations@;
            if old(self).wf() {
                assert forall|i: int, j: int| 0 <= i < j < locs1.len() implies locs1[i].base.tag@
                    != locs1[j].base.tag@ by {
                    if j < locs0.len() {
                    } else {
                        assert(locs1[j] == location);
                        assert(!locs_have_tag(locs0, location.base.tag@));
                    }
                }
            }
            if old(self).closed_graph() {
                assert forall|i: int, j: int|
                    0 <= i < locs1.len() && 0 <= j
                        < locs1[i].connections@.len() implies locs_have_tag(
                    locs1,
                    (#[trigger] locs1[i].connections@[j])@,
                ) by {
                    if i < locs0.len() {
                        assert(locs1[i] == locs0[i]);
                        assert(locs_have_tag(locs0, locs0[i].connections@[j]@));
                        let w = choose|k: int|
                            0 <= k < locs0.len() && locs0[k].base.tag@
                                == locs0[i].connections@[j]@;
                        assert(locs1[w].base.tag@ == locs1[i].connections@[j]@);
                    }
                }
            }
        }
        true
    }

    /// Adds an edge from `from_tag` to `to_tag`, provided both resolve
    /// in the catalog: the graph stays closed.
    pub fn connect(&mut self, from_tag: &str, to_tag: &str) -> (r: bool)
        ensures
            r == (locs_have_tag(old(self).locations@, from_tag@) && locs_have_tag(
                old(self).locations@,
                to_tag@,
            )),
            !r ==> *final(self) == *old(self),
            r ==> *final(self) == (World { locations: final(self).locations, ..*old(self) }),
            r ==> (exists|i: int|
                {
                    &&& 0 <= i < old(self).locations@.len()
                    &&& old(self).locations@[i].base.tag@ == from_tag@
                    &&& (forall|j: int|
                        0 <= j < i ==> old(self).locations@[j].base.tag@ != from_tag@)
                    &&& final(self).locations@ == old(self).locations@.update(
                        i,
                        (Location {
                            connections: final(self).locations@[i].connections,
                            ..old(self).locations@[i]
                        }),
                    )
                    &&& final(self).locations@[i].connections@.len() == old(self).locations@[i].connections@.len() + 1
                    &&& final(self).locations@[i].connections@.drop_last() == old(self).locations@[i].connections@
                    &&& final(self).locations@[i].connections@.last()@ == to_tag@
                }),
            old(self).wf() ==> final(self).wf(),
            old(self).closed_graph() ==> final(self).closed_graph(),
            final(self).locations@.len() == old(self).locations@.len(),
            forall|k: int|
                0 <= k < old(self).locations@.len() ==> (#[trigger] final(self).locations@[k]).base.tag@ == old(self).locations@[k].base.tag@,
            forall|k: int|
                0 <= k < old(self).locations@.len() ==> (#[trigger] final(self).locations@[k]).content == old(self).locations@[k].content,
    {
        if find_location(self, to_tag).is_none() {
            return false;
        }
        let n = self.locations.len();
        let mut idx: Option<usize> = None;
        let mut i: usize = 0;
        while i < n
            invariant
                n == self.locations@.len(),
                0 <= i <= n,
                *self == *old(self),
                idx matches Some(s) ==> 0 <= s < i && self.locations@[s as int].base.tag@
                    == from_tag@ && (forall|j: int|
                    0 <= j < s ==> self.locations@[j].base.tag@ != from_tag@),
                idx is None ==> (forall|j: int|
                    0 <= j < i ==> self.locations@[j].base.tag@ != from_tag@),
            decreases n - i,
        {
            if idx.is_none() && str_eq(self.locations[i].base.tag.as_str(), from_tag) {
                idx = Some(i);
            }
            i += 1;
        }
        let at = match idx {
            Some(s) => s,
            None => {
                return false;
            },
        };
        let ghost locs0 = self.locations@;
        self.locations[at].connections.push(to_tag.to_owned());
        proof {
            let locs1 = self.locations@;
            assert(locs1 =~= locs0.update(
                at as int,
                (Location { connections: locs1[at as int].connections, ..locs0[at as int] }),
            ));
            assert(locs1[at as int].connections@.drop_last() =~= locs0[at as int].connections@);
            if old(self).wf() {
                assert forall|a: int, b: int| 0 <= a < b < locs1.len() implies locs1[a].base.tag@
                    != locs1[b].base.tag@ by {
                    assert(locs1[a].base.tag@ == locs0[a].base.tag@);
                    assert(locs1[b].base.tag@ == locs0[b].base.tag@);
                }
            }
            if old(self).closed_graph() {
                assert forall|a: int, b: int|
                    0 <= a < locs1.len() && 0 <= b
                        < locs1[a].connections@.len() implies locs_have_tag(
                    locs1,
                    (#[trigger] locs1[a].connections@[b])@,
                ) by {
                    let conn = locs1[a].connections@[b];
                    if a == at as int && b == locs1[a].connections@.len() - 1 {
                        let w = choose|k: int|
                            0 <= k < locs0.len() && locs0[k].base.tag@ == to_tag@;
                        assert(locs1[w].base.tag@ == conn@);
                    } else {
                        assert(conn == locs0[a].connections@[b]);
                        assert(locs_have_tag(locs0, conn@));
                        let w = choose|k: int|
                            0 <= k < locs0.len() && locs0[k].base.tag@ == conn@;
                        assert(locs1[w].base.tag@ == conn@);
                    }
                }
            }
        }
        true
    }

    /// Registers an item, provided its tag is new.
    pub fn add_item(&mut self, item: Item) -> (r: bool)
        ensures
            r == !(exists|i: int|
                0 <= i < old(self).items@.len() && (#[trigger] old(self).items@[i]).base.tag@
                    == item.base.tag@),
            r ==> *final(self) == (World { items: final(self).items, ..*old(self) }) && final(self).items@ == old(self).items@.push(item),
            !r ==> *final(self) == *old(self),
            old(self).wf() ==> final(self).wf(),
            old(self).closed_graph() ==> final(self).closed_graph(),
    {
        if find_item(self, item.base.tag.as_str()).is_some() {
            return false;
        }
        self.items.push(item);
        true
    }

    /// Registers a group, provided its tag is new.
    pub fn add_npc(&mut self, npc: NPC) -> (r: bool)
        ensures
            r == !(exists|i: int|
                0 <= i < old(self).npcs@.len() && (#[trigger] old(self).npcs@[i]).base.tag@
                    == npc.base.tag@),
            r ==> *final(self) == (World { npcs: final(self).npcs, ..*old(self) }) && final(self).npcs@ == old(self).npcs@.push(npc),
            !r ==> *final(self) == *old(self),
            old(self).wf() ==> final(self).wf(),
            old(self).closed_graph() ==> final(self).closed_graph(),
    {
        if find_npc(self, npc.base.tag.as_str()).is_some() {
            return false;
        }
        self.npcs.push(npc);
        true
    }

    /// Registers a passage, provided its tag is new.
    pub fn add_passage(&mut self, passage: Passage) -> (r: bool)
        ensures
            r == !(exists|i: int|
                0 <= i < old(self).passages@.len() && (#[trigger] old(self).passages@[i]).base.tag@ == passage.base.tag@),
            r ==> *final(self) == (World { passages: final(self).passages, ..*old(self) }) && final(self).passages@ == old(self).passages@.push(passage),
            !r ==> *final(self) == *old(self),
            old(self).wf() ==> final(self).wf(),
            old(self).closed_graph() ==> final(self).closed_graph(),
    {
        if find_passage(self, passage.base.tag.as_str()).is_some() {
            return false;
        }
        self.passages.push(passage);
        true
    }
}

/// The first location of `locs` whose tag is `tag`.
pub open spec fn spec_find_location(locs: Seq<Location>, tag: Seq<char>) -> Option<Location>
    decreases locs.len(),
{
    if locs.len() == 0 {
        None
    } else if locs[0].base.tag@ == tag {
        Some(locs[0])
    } else {
        spec_find_location(locs.drop_first(), tag)
    }
}

proof fn lemma_find_location_skip(locs: Seq<Location>, tag: Seq<char>, i: int)
    requires
        0 <= i <= locs.len(),
        forall|j: int| 0 <= j < i ==> locs[j].base.tag@ != tag,
    ensures
        spec_find_location(locs, tag) == spec_find_location(locs.skip(i), tag),
    decreases i,
{
    if i > 0 {
        lemma_find_location_skip(locs, tag, i - 1);
        assert(locs.skip(i - 1)[0] == locs[i - 1]);
        assert(locs.skip(i - 1).drop_first() =~= locs.skip(i));
    } else {
        assert(locs.skip(0) =~= locs);
    }
}

pub fn find_location<'a>(world: &'a World, tag: &str) -> (r: Option<&'a Location>)
    ensures
        r is Some <==> locs_have_tag(world.locations@, tag@),
        r matches Some(l) ==> l.base.tag@ == tag@ && world.locations@.contains(*l),
        r matches Some(l) ==> spec_find_location(world.locations@, tag@) == Some(*l),
        r is None ==> spec_find_location(world.locations@, tag@) is None,
{
    let n = world.locations.len();
    let mut i: usize = 0;
    while i < n
        invariant
            n == world.locations@.len(),
            0 <= i <= n,
            forall|j: int| 0 <= j < i ==> world.locations@[j].base.tag@ != tag@,
        decreases n - i,
    {
        if str_eq(world.locations[i].base.tag.as_str(), tag) {
            proof {
                lemma_find_location_skip(world.locations@, tag@, i as int);
                assert(world.locations@.skip(i as int)[0] == world.locations@[i as int]);
            }
            return Some(&world.locations[i]);
        }
        i += 1;
    }
    proof {
        lemma_find_location_skip(world.locations@, tag@, n as int);
        assert(world.locations@.skip(n as int).len() == 0);
    }
    None
}

pub fn find_item<'a>(world: &'a World, tag: &str) -> (r: Option<&'a Item>)
    ensures
        r is Some <==> (exists|i: int|
            0 <= i < world.items@.len() && world.items@[i].base.tag@ == tag@),
        r matches Some(it) ==> it.base.tag@ == tag@ && world.items@.contains(*it),
{
    let n = world.items.len();
    let mut i: usize = 0;
    while i < n
        invariant
            n == world.items@.len(),
            0 <= i <= n,
            forall|j: int| 0 <= j < i ==> world.items@[j].base.tag@ != tag@,
        decreases n - i,
    {
        if str_eq(world.items[i].base.tag.as_str(), tag) {
            return Some(&world.items[i]);
        }
        i += 1;
    }
    None
}

/// The first group of `npcs` whose tag is `tag`.
pub open spec fn spec_find_npc(npcs: Seq<NPC>, tag: Seq<char>) -> Option<NPC>
    decreases npcs.len(),
{
    if npcs.len() == 0 {
        None
    } else if npcs[0].base.tag@ == tag {
        Some(npcs[0])
    } else {
        spec_find_npc(npcs.drop_first(), tag)
    }
}

proof fn lemma_find_npc_skip(npcs: Seq<NPC>, tag: Seq<char>, i: int)
    requires
        0 <= i <= npcs.len(),
        forall|j: int| 0 <= j < i ==> npcs[j].base.tag@ != tag,
    ensures
        spec_find_npc(npcs, tag) == spec_find_npc(npcs.skip(i), tag),
    decreases i,
{
    if i > 0 {
        lemma_find_npc_skip(npcs, tag, i - 1);
        assert(npcs.skip(i - 1)[0] == npcs[i - 1]);
        assert(npcs.skip(i - 1).drop_first() =~= npcs.skip(i));
    } else {
        assert(npcs.skip(0) =~= npcs);
    }
}

pub fn find_npc<'a>(world: &'a World, tag: &str) -> (r: Option<&'a NPC>)
    ensures
        r is Some <==> (exists|i: int|
            0 <= i < world.npcs@.len() && world.npcs@[i].base.tag@ == tag@),
        r matches Some(npc) ==> npc.base.tag@ == tag@ && world.npcs@.contains(*npc),
        r matches Some(npc) ==> spec_find_npc(world.npcs@, tag@) == Some(*npc),
        r is None ==> spec_find_npc(world.npcs@, tag@) is None,
{
    let n = world.npcs.len();
    let mut i: usize = 0;
    while i < n
        invariant
            n == world.npcs@.len(),
            0 <= i <= n,
            forall|j: int| 0 <= j < i ==> world.npcs@[j].base.tag@ != tag@,
        decreases n - i,
    {
        if str_eq(world.npcs[i].base.tag.as_str(), tag) {
            proof {
                lemma_find_npc_skip(world.npcs@, tag@, i as int);
                assert(world.npcs@.skip(i as int)[0] == world.npcs@[i as int]);
            }
            return Some(&world.npcs[i]);
        }
        i += 1;
    }
    proof {
        lemma_find_npc_skip(world.npcs@, tag@, n as int);
        assert(world.npcs@.skip(n as int).len() == 0);
    }
    None
}

pub fn find_passage<'a>(world: &'a World, tag: &str) -> (r: Option<&'a Passage>)
    ensures
        r is Some <==> (exists|i: int|
            0 <= i < world.passages@.len() && world.passages@[i].base.tag@ == tag@),
        r matches Some(p) ==> p.base.tag@ == tag@ && world.passages@.contains(*p),
{
    let n = world.passages.len();
    let mut i: usize = 0;
    while i < n
        invariant
            n == world.passages@.len(),
            0 <= i <= n,
            forall|j: int| 0 <= j < i ==> world.passages@[j].base.tag@ != tag@,
        decreases n - i,
    {
        if str_eq(world.passages[i].base.tag.as_str(), tag) {
            return Some(&world.passages[i]);
        }
        i += 1;
    }
    None
}

/// Whether a passage joins `a` and `b` in either direction.
pub open spec fn spec_passage_joins(p: Passage, a: Seq<char>, b: Seq<char>) -> bool {
    (p.from@ == a && p.to@ == b) || (p.from@ == b && p.to@ == a)
}

/// The first passage of `ps` that joins `a` and `b` in either direction.
pub open spec fn spec_find_passage_between(ps: Seq<Passage>, a: Seq<char>, b: Seq<char>) -> Option<
    Passage,
>
    decreases ps.len(),
{
    if ps.len() == 0 {
        None
    } else if spec_passage_joins(ps[0], a, b) {
        Some(ps[0])
    } else {
        spec_find_passage_between(ps.drop_first(), a, b)
    }
}

proof fn lemma_find_passage_between_skip(ps: Seq<Passage>, a: Seq<char>, b: Seq<char>, i: int)
    requires
        0 <= i <= ps.len(),
        forall|j: int| 0 <= j < i ==> !spec_passage_joins(ps[j], a, b),
    ensures
        spec_find_passage_between(ps, a, b) == spec_find_passage_between(ps.skip(i), a, b),
    decreases i,
{
    if i > 0 {
        lemma_find_passage_between_skip(ps, a, b, i - 1);
        assert(ps.skip(i - 1)[0] == ps[i - 1]);
        assert(ps.skip(i - 1).drop_first() =~= ps.skip(i));
    } else {
        assert(ps.skip(0) =~= ps);
    }
}

/// The first passage that joins the two locations, in either direction;
/// the conditional preconditions of a move live on such a record.
pub fn find_passage_between<'a>(world: &'a World, a: &str, b: &str) -> (r: Option<&'a Passage>)
    ensures
        r is Some <==> (exists|i: int|
            0 <= i < world.passages@.len() && spec_passage_joins(world.passages@[i], a@, b@)),
        r matches Some(p) ==> spec_passage_joins(*p, a@, b@) && world.passages@.contains(*p),
        r matches Some(p) ==> spec_find_passage_between(world.passages@, a@, b@) == Some(*p),
        r is None ==> spec_find_passage_between(world.passages@, a@, b@) is None,
{
    let n = world.passages.len();
    let mut i: usize = 0;
    while i < n
        invariant
            n == world.passages@.len(),
            0 <= i <= n,
            forall|j: int| 0 <= j < i ==> !spec_passage_joins(world.passages@[j], a@, b@),
        decreases n - i,
    {
        let p = &world.passages[i];
        let fwd = str_eq(p.from.as_str(), a) && str_eq(p.to.as_str(), b);
        let bwd = str_eq(p.from.as_str(), b) && str_eq(p.to.as_str(), a);
        if fwd || bwd {
            proof {
                lemma_find_passage_between_skip(world.passages@, a@, b@, i as int);
                assert(world.passages@.skip(i as int)[0] == world.passages@[i as int]);
            }
            return Some(p);
        }
        i += 1;
    }
    proof {
        lemma_find_passage_between_skip(world.passages@, a@, b@, n as int);
        assert(world.passages@.skip(n as int).len() == 0);
    }
    None
}

/// The items present at the named location: the content of the
/// location the tag resolves to, or nothing when it resolves to none.
pub fn get_items_in_location<'a>(world: &'a World, location_tag: &str) -> (r: Vec<&'a Item>)
    ensures
        match spec_find_location(world.locations@, location_tag@) {
            Some(l) => r@.len() == l.content.items@.len() && (forall|k: int|
                0 <= k < r@.len() ==> *r@[k] == l.content.items@[k]),
            None => r@.len() == 0,
        },
{
    let mut out: Vec<&'a Item> = Vec::new();
    let location = match find_location(world, location_tag) {
        Some(l) => l,
        None => {
            return out;
        },
    };
    let n = location.content.items.len();
    let mut i: usize = 0;
    while i < n
        invariant
            n == location.content.items@.len(),
            0 <= i <= n,
            spec_find_location(world.locations@, location_tag@) == Some(*location),
            out@.len() == i,
            forall|k: int| 0 <= k < i ==> *out@[k] == location.content.items@[k],
        decreases n - i,
    {
        out.push(&location.content.items[i]);
        i += 1;
    }
    out
}

/// Every item hidden in the given location.
pub fn get_hidden_items_in_location<'a>(location: &'a Location) -> (r: Vec<&'a Item>)
    ensures
        r@.len() == location.content.hidden_items@.len(),
        forall|i: int| 0 <= i < r@.len() ==> *r@[i] == location.content.hidden_items@[i],
{
    let mut out: Vec<&'a Item> = Vec::new();
    let n = location.content.hidden_items.len();
    let mut i: usize = 0;
    while i < n
        invariant
            n == location.content.hidden_items@.len(),
            0 <= i <= n,
            out@.len() == i,
            forall|j: int| 0 <= j < i ==> *out@[j] == location.content.hidden_items@[j],
        decreases n - i,
    {
        out.push(&location.content.hidden_items[i]);
        i += 1;
    }
    out
}

/// The groups whose home is the given location.
pub fn get_npcs_in_location<'a>(world: &'a World, location_tag: &str) -> (r: Vec<&'a NPC>)
    ensures
        r@.len() == npcs_at(world.npcs@, location_tag@).len(),
        forall|k: int| 0 <= k < r@.len() ==> *r@[k] == npcs_at(world.npcs@, location_tag@)[k],
{
    let mut out: Vec<&'a NPC> = Vec::new();
    let n = world.npcs.len();
    let mut i: usize = 0;
    while i < n
        invariant
            n == world.npcs@.len(),
            0 <= i <= n,
            out@.len() == npcs_at(world.npcs@.subrange(0, i as int), location_tag@).len(),
            forall|k: int|
                0 <= k < out@.len() ==> *out@[k] == npcs_at(
                    world.npcs@.subrange(0, i as int),
                    location_tag@,
                )[k],
        decreases n - i,
    {
        proof {
            assert(world.npcs@.subrange(0, i + 1 as int) =~= world.npcs@.subrange(0, i as int).push(
                world.npcs@[i as int],
            ));
            lemma_npcs_at_push(
                world.npcs@.subrange(0, i as int),
                location_tag@,
                world.npcs@[i as int],
            );
        }
        if str_eq(world.npcs[i].location.as_str(), location_tag) {
            out.push(&world.npcs[i]);
        }
        i += 1;
    }
    proof {
        assert(world.npcs@.subrange(0, n as int) =~= world.npcs@);
    }
    out
}

/// The passages that leave from the given location.
pub fn get_passages_from_location<'a>(world: &'a World, location_tag: &str) -> (r: Vec<&'a Passage>)
    ensures
        r@.len() == passages_from(world.passages@, location_tag@).len(),
        forall|k: int|
            0 <= k < r@.len() ==> *r@[k] == passages_from(world.passages@, location_tag@)[k],
{
    let mut out: Vec<&'a Passage> = Vec::new();
    let n = world.passages.len();
    let mut i: usize = 0;
    while i < n
        invariant
            n == world.passages@.len(),
            0 <= i <= n,
            out@.len() == passages_from(world.passages@.subrange(0, i as int), location_tag@).len(),
            forall|k: int|
                0 <= k < out@.len() ==> *out@[k] == passages_from(
                    world.passages@.subrange(0, i as int),
                    location_tag@,
                )[k],
        decreases n - i,
    {
        proof {
            assert(world.passages@.subrange(0, i + 1 as int) =~= world.passages@.subrange(
                0,
                i as int,
            ).push(world.passages@[i as int]));
            lemma_passages_from_push(
                world.passages@.subrange(0, i as int),
                location_tag@,
                world.passages@[i as int],
            );
        }
        if str_eq(world.passages[i].from.as_str(), location_tag) {
            out.push(&world.passages[i]);
        }
        i += 1;
    }
    proof {
        assert(world.passages@.subrange(0, n as int) =~= world.passages@);
    }
    out
}

/// The first item with the given tag among a location's visible items.
/// The first item of `items` whose tag is `tag`.
pub open spec fn spec_find_item_in(items: Seq<Item>, tag: Seq<char>) -> Option<Item>
    decreases items.len(),
{
    if items.len() == 0 {
        None
    } else if items[0].base.tag@ == tag {
        Some(items[0])
    } else {
        spec_find_item_in(items.drop_first(), tag)
    }
}

proof fn lemma_find_item_in_skip(items: Seq<Item>, tag: Seq<char>, i: int)
    requires
        0 <= i <= items.len(),
        forall|j: int| 0 <= j < i ==> items[j].base.tag@ != tag,
    ensures
        spec_find_item_in(items, tag) == spec_find_item_in(items.skip(i), tag),
    decreases i,
{
    if i > 0 {
        lemma_find_item_in_skip(items, tag, i - 1);
        assert(items.skip(i - 1)[0] == items[i - 1]);
        assert(items.skip(i - 1).drop_first() =~= items.skip(i));
    } else {
        assert(items.skip(0) =~= items);
    }
}

pub fn find_item_in_location<'a>(location: &'a Location, item_tag: &str) -> (r: Option<&'a Item>)
    ensures
        r is Some <==> (exists|i: int|
            0 <= i < location.content.items@.len() && location.content.items@[i].base.tag@
                == item_tag@),
        r matches Some(it) ==> it.base.tag@ == item_tag@ && location.content.items@.contains(
            *it,
        ),
        r matches Some(it) ==> spec_find_item_in(location.content.items@, item_tag@) == Some(*it),
        r is None ==> spec_find_item_in(location.content.items@, item_tag@) is None,
{
    let n = location.content.items.len();
    let mut i: usize = 0;
    while i < n
        invariant
            n == location.content.items@.len(),
            0 <= i <= n,
            forall|j: int| 0 <= j < i ==> location.content.items@[j].base.tag@ != item_tag@,
        decreases n - i,
    {
        if str_eq(location.content.items[i].base.tag.as_str(), item_tag) {
            proof {
                lemma_find_item_in_skip(location.content.items@, item_tag@, i as int);
                assert(location.content.items@.skip(i as int)[0]
                    == location.content.items@[i as int]);
            }
            return Some(&location.content.items[i]);
        }
        i += 1;
    }
    proof {
        lemma_find_item_in_skip(location.content.items@, item_tag@, n as int);
        assert(location.content.items@.skip(n as int).len() == 0);
    }
    None
}

/// Checks that every connection of every location resolves to a known
/// location tag.
pub fn world_is_closed(world: &World) -> (r: bool)
    ensures
        r == world.closed_graph(),
{
    let n = world.locations.len();
    let mut i: usize = 0;
    while i < n
        invariant
            n == world.locations@.len(),
            0 <= i <= n,
            forall|a: int, b: int|
                0 <= a < i && 0 <= b < world.locations@[a].connections@.len()
                    ==> locs_have_tag(world.locations@, (#[trigger] world.locations@[a].connections@[b])@),
        decreases n - i,
    {
        let m = world.locations[i].connections.len();
        let mut j: usize = 0;
        while j < m
            invariant
                n == world.locations@.len(),
                0 <= i < n,
                m == world.locations@[i as int].connections@.len(),
                0 <= j <= m,
                forall|a: int, b: int|
                    0 <= a < i && 0 <= b < world.locations@[a].connections@.len()
                        ==> locs_have_tag(world.locations@, (#[trigger] world.locations@[a].connections@[b])@),
                forall|b: int|
                    0 <= b < j ==> locs_have_tag(
                        world.locations@,
                        #[trigger] world.locations@[i as int].connections@[b]@,
                    ),
            decreases m - j,
        {
            if find_location(world, world.locations[i].connections[j].as_str()).is_none() {
                return false;
            }
            j += 1;
        }
        i += 1;
    }
    true
}

} // verus!
