//! The player's progress through a playthrough: the party, the current
//! location, the inventory, everything discovered, dropped or defeated,
//! and the resolvers for navigation, search, combat and leveling.
use vstd::prelude::*;
use vstd::string::{StrSliceExecFns, StringExecFns};
use crate::character::{
    names_contain, spec_class_attack_bonus, spec_weapon_attack_bonus, Character, Equipment,
    EquipmentType,
};
use crate::object::{
    find_item_in_location, find_location, find_npc, find_passage_between, locs_have_tag,
    spec_find_location, spec_find_npc, spec_find_passage_between, Attitude, Item, Location, NPC,
    NPCTag, Passage, World,
};
use crate::text::{lower_of, lowercase, str_eq, trim_of, trim_str};
use rand::Rng;

verus! {

/// A line of text from outside the engine; the game blocks on it at a
/// riddle, at the in-combat menu and at the leveling prompt.
pub trait InputReader {
    fn read_line(&mut self) -> String;
}

/// A reader that always answers with one fixed line.
pub struct TestInputReader {
    pub input: String,
}

impl TestInputReader {
    pub fn new(input: String) -> (r: Self)
        ensures
            r.input == input,
    {
        TestInputReader { input }
    }
}

impl InputReader for TestInputReader {
    fn read_line(&mut self) -> String {
        self.input.clone()
    }
}

/// A six-sided die. Whatever the source of chance, the result is a
/// face of the die.
pub trait DiceRoller {
    fn roll_1d6(&mut self) -> (r: u8)
        ensures
            1 <= r <= 6,
    ;
}

pub struct RealDiceRoller;

/// Relies on rand's `thread_rng`/`gen_range`: a sample drawn from
/// `1..=6` lies in that range.
#[verifier::external_body]
fn roll_1d6_random() -> (r: u8)
    ensures
        1 <= r <= 6,
{
    rand::thread_rng().gen_range(1..=6)
}

impl DiceRoller for RealDiceRoller {
    fn roll_1d6(&mut self) -> (r: u8) {
        roll_1d6_random()
    }
}

/// A die that always lands on the stored value, clamped into the die's
/// range.
pub struct MockDiceRoller {
    pub value: u8,
}

impl DiceRoller for MockDiceRoller {
    fn roll_1d6(&mut self) -> (r: u8)
        ensures
            r == (if old(self).value < 1 {
                1u8
            } else if old(self).value > 6 {
                6u8
            } else {
                old(self).value
            }),
            *final(self) == *old(self),
    {
        if self.value < 1 {
            1
        } else if self.value > 6 {
            6
        } else {
            self.value
        }
    }
}

/// Relies on rand's `thread_rng`/`gen_range`: a sample drawn from
/// `1..=100` lies in that range.
#[verifier::external_body]
fn roll_1d100() -> (r: u8)
    ensures
        1 <= r <= 100,
{
    rand::thread_rng().gen_range(1..=100)
}

/// Everything a playthrough changes: the party and its belongings, the
/// position in the world, and what has been discovered or defeated.
#[derive(Debug)]
pub struct Player {
    pub characters: Vec<Character>,
    pub current_location: Option<String>,
    pub inventory: Vec<Item>,
    pub search_attempts: Vec<(String, u32)>,
    pub discovered_items: Vec<String>,
    pub dropped_items: Vec<(String, String)>,
    pub picked_items: Vec<String>,
    pub discovered_locations: Vec<String>,
    pub defeated_npcs: Vec<String>,
    pub current_combat_enemies: Option<u8>,
    pub combat_round: u32,
    pub encounters_won: u32,
    pub leveled_up_last_time: Option<String>,
}

/// Whether the inventory holds an item with the given tag.
pub open spec fn spec_has_item(inv: Seq<Item>, tag: Seq<char>) -> bool {
    exists|i: int| 0 <= i < inv.len() && inv[i].base.tag@ == tag
}

/// The search-attempt counter stored for `k`; a location never searched
/// counts zero.
pub open spec fn attempts_lookup(m: Seq<(String, u32)>, k: Seq<char>) -> u32
    decreases m.len(),
{
    if m.len() == 0 {
        0
    } else if m[0].0@ == k {
        m[0].1
    } else {
        attempts_lookup(m.drop_first(), k)
    }
}

proof fn lemma_attempts_lookup_skip(m: Seq<(String, u32)>, k: Seq<char>, i: int)
    requires
        0 <= i <= m.len(),
        forall|j: int| 0 <= j < i ==> m[j].0@ != k,
    ensures
        attempts_lookup(m, k) == attempts_lookup(m.skip(i), k),
    decreases i,
{
    if i > 0 {
        lemma_attempts_lookup_skip(m, k, i - 1);
        assert(m.skip(i - 1)[0] == m[i - 1]);
        assert(m.skip(i - 1).drop_first() =~= m.skip(i));
    } else {
        assert(m.skip(0) =~= m);
    }
}

proof fn lemma_attempts_lookup_update(m: Seq<(String, u32)>, i: int, e: (String, u32), k2: Seq<
    char,
>)
    requires
        0 <= i < m.len(),
        e.0@ == m[i].0@,
        forall|j: int| 0 <= j < i ==> m[j].0@ != m[i].0@,
    ensures
        k2 == m[i].0@ ==> attempts_lookup(m.update(i, e), k2) == e.1,
        k2 != m[i].0@ ==> attempts_lookup(m.update(i, e), k2) == attempts_lookup(m, k2),
    decreases i,
{
    let m2 = m.update(i, e);
    if i == 0 {
        assert(m2[0] == e);
        assert(m2.drop_first() =~= m.drop_first());
    } else {
        assert(m2[0] == m[0]);
        assert(m2.drop_first() =~= m.drop_first().update(i - 1, e));
        assert(m.drop_first()[i - 1] == m[i]);
        lemma_attempts_lookup_update(m.drop_first(), i - 1, e, k2);
    }
}

proof fn lemma_attempts_lookup_push(m: Seq<(String, u32)>, e: (String, u32), k2: Seq<char>)
    requires
        forall|j: int| 0 <= j < m.len() ==> m[j].0@ != e.0@,
    ensures
        k2 == e.0@ ==> attempts_lookup(m.push(e), k2) == e.1,
        k2 != e.0@ ==> attempts_lookup(m.push(e), k2) == attempts_lookup(m, k2),
    decreases m.len(),
{
    if m.len() == 0 {
        assert(m.push(e)[0] == e);
        assert(m.push(e).drop_first() =~= Seq::<(String, u32)>::empty());
        assert(attempts_lookup(m.push(e).drop_first(), k2) == 0);
        assert(attempts_lookup(m, k2) == 0);
    } else {
        assert(m.push(e)[0] == m[0]);
        assert(m.push(e).drop_first() =~= m.drop_first().push(e));
        lemma_attempts_lookup_push(m.drop_first(), e, k2);
        assert(attempts_lookup(m.push(e).drop_first(), k2) == attempts_lookup(
            m.drop_first().push(e),
            k2,
        ));
    }
}

/// The location the player stands in, resolved against the catalog.
pub open spec fn spec_current_location(world: World, p: Player) -> Option<Location> {
    match p.current_location {
        Some(t) => spec_find_location(world.locations@, t@),
        None => None,
    }
}

/// Whether `npc_tag` names a catalog group that is hostile and not yet
/// defeated by this player.
pub open spec fn spec_hostile_undefeated(world: World, p: Player, npc_tag: Seq<char>) -> bool {
    match spec_find_npc(world.npcs@, npc_tag) {
        Some(npc) => npc.attitude == Attitude::Hostile && !names_contain(
            p.defeated_npcs@,
            npc.base.tag@,
        ),
        None => false,
    }
}

/// Whether an undefeated hostile group stands in the player's location.
pub open spec fn spec_has_hostiles(world: World, p: Player) -> bool {
    match spec_current_location(world, p) {
        Some(l) => exists|j: int|
            0 <= j < l.content.npcs@.len() && spec_hostile_undefeated(
                world,
                p,
                l.content.npcs@[j]@,
            ),
        None => false,
    }
}

/// Whether a connection tag is a visible exit for this player: it
/// resolves in the catalog and is either visible or already discovered.
pub open spec fn spec_exit_visible(world: World, p: Player, conn: String) -> bool {
    match spec_find_location(world.locations@, conn@) {
        Some(l) => l.base.visible || names_contain(p.discovered_locations@, conn@),
        None => false,
    }
}

/// The connection tags of `conns` that are visible exits, in order.
pub open spec fn exits_of(world: World, p: Player, conns: Seq<String>) -> Seq<String> {
    conns.filter(|c: String| spec_exit_visible(world, p, c))
}

proof fn lemma_exits_of_push(world: World, p: Player, conns: Seq<String>, c: String)
    ensures
        exits_of(world, p, conns.push(c)) == if spec_exit_visible(world, p, c) {
            exits_of(world, p, conns).push(c)
        } else {
            exits_of(world, p, conns)
        },
{
    broadcast use Seq::lemma_filter_push;

}

/// Whether `names` holds a string whose characters are `n`.
pub fn names_has(names: &Vec<String>, n: &str) -> (r: bool)
    ensures
        r == names_contain(names@, n@),
{
    let mut i: usize = 0;
    while i < names.len()
        invariant
            0 <= i <= names@.len(),
            forall|j: int| 0 <= j < i ==> names@[j]@ != n@,
        decreases names@.len() - i,
    {
        if str_eq(names[i].as_str(), n) {
            return true;
        }
        i += 1;
    }
    false
}

impl Player {
    /// Founds a session around a party whose names are pairwise distinct.
    pub fn new(characters: Vec<Character>) -> (r: Player)
        requires
            forall|i: int, j: int|
                0 <= i < j < characters@.len() ==> characters@[i].name@ != characters@[j].name@,
        ensures
            r.characters == characters,
            r.current_location is None,
            r.inventory@.len() == 0,
            r.search_attempts@.len() == 0,
            r.discovered_items@.len() == 0,
            r.dropped_items@.len() == 0,
            r.picked_items@.len() == 0,
            r.discovered_locations@.len() == 0,
            r.defeated_npcs@.len() == 0,
            r.current_combat_enemies is None,
            r.combat_round == 0,
            r.encounters_won == 0,
            r.leveled_up_last_time is None,
    {
        Player {
            characters,
            current_location: None,
            inventory: Vec::new(),
            search_attempts: Vec::new(),
            discovered_items: Vec::new(),
            dropped_items: Vec::new(),
            picked_items: Vec::new(),
            discovered_locations: Vec::new(),
            defeated_npcs: Vec::new(),
            current_combat_enemies: None,
            combat_round: 0,
            encounters_won: 0,
            leveled_up_last_time: None,
        }
    }

    pub fn set_current_location(&mut self, location_tag: Option<String>)
        ensures
            *final(self) == (Player { current_location: location_tag, ..*old(self) }),
    {
        self.current_location = location_tag;
    }

    pub fn has_item(&self, tag: &str) -> (r: bool)
        ensures
            r == spec_has_item(self.inventory@, tag@),
    {
        let mut i: usize = 0;
        while i < self.inventory.len()
            invariant
                0 <= i <= self.inventory@.len(),
                forall|j: int| 0 <= j < i ==> self.inventory@[j].base.tag@ != tag@,
            decreases self.inventory@.len() - i,
        {
            if str_eq(self.inventory[i].base.tag.as_str(), tag) {
                return true;
            }
            i += 1;
        }
        false
    }

    /// The stored number of search attempts at the location tagged `key`.
    pub fn get_search_attempts(&self, key: &str) -> (r: u32)
        ensures
            r == attempts_lookup(self.search_attempts@, key@),
    {
        let n = self.search_attempts.len();
        let mut i: usize = 0;
        while i < n
            invariant
                n == self.search_attempts@.len(),
                0 <= i <= n,
                forall|j: int| 0 <= j < i ==> self.search_attempts@[j].0@ != key@,
            decreases n - i,
        {
            if str_eq(self.search_attempts[i].0.as_str(), key) {
                proof {
                    lemma_attempts_lookup_skip(self.search_attempts@, key@, i as int);
                    assert(self.search_attempts@.skip(i as int)[0] == self.search_attempts@[i as int]);
                }
                return self.search_attempts[i].1;
            }
            i += 1;
        }
        proof {
            lemma_attempts_lookup_skip(self.search_attempts@, key@, n as int);
            assert(self.search_attempts@.skip(n as int).len() == 0);
        }
        0
    }

    /// Stores `v` as the attempt counter of the location tagged `key`,
    /// leaving every other counter as it was.
    fn set_search_attempts(&mut self, key: &str, v: u32)
        ensures
            *final(self) == (Player { search_attempts: final(self).search_attempts, ..*old(self) }),
            attempts_lookup(final(self).search_attempts@, key@) == v,
            forall|k2: Seq<char>|
                k2 != key@ ==> attempts_lookup(final(self).search_attempts@, k2) == attempts_lookup(
                    old(self).search_attempts@,
                    k2,
                ),
    {
        let ghost m0 = self.search_attempts@;
        let n = self.search_attempts.len();
        let mut i: usize = 0;
        while i < n
            invariant
                n == self.search_attempts@.len(),
                0 <= i <= n,
                *self == *old(self),
                self.search_attempts@ == m0,
                forall|j: int| 0 <= j < i ==> m0[j].0@ != key@,
            decreases n - i,
        {
            if str_eq(self.search_attempts[i].0.as_str(), key) {
                let entry = (self.search_attempts[i].0.clone(), v);
                proof {
                    lemma_attempts_lookup_update(m0, i as int, entry, key@);
                }
                assert forall|k2: Seq<char>| k2 != key@ implies attempts_lookup(
                    m0.update(i as int, entry),
                    k2,
                ) == attempts_lookup(m0, k2) by {
                    lemma_attempts_lookup_update(m0, i as int, entry, k2);
                }
                self.search_attempts[i] = entry;
                return ;
            }
            i += 1;
        }
        let entry = (key.to_owned(), v);
        proof {
            lemma_attempts_lookup_push(m0, entry, key@);
        }
        assert forall|k2: Seq<char>| k2 != key@ implies attempts_lookup(m0.push(entry), k2)
            == attempts_lookup(m0, k2) by {
            lemma_attempts_lookup_push(m0, entry, k2);
        }
        self.search_attempts.push(entry);
    }

    pub fn has_hostile_npcs(&self, world: &World) -> (r: bool)
        ensures
            r == spec_has_hostiles(*world, *self),
    {
        let location_tag = match &self.current_location {
            Some(t) => t,
            None => {
                return false;
            },
        };
        let location = match find_location(world, location_tag.as_str()) {
            Some(l) => l,
            None => {
                return false;
            },
        };
        let n = location.content.npcs.len();
        let mut i: usize = 0;
        while i < n
            invariant
                n == location.content.npcs@.len(),
                0 <= i <= n,
                spec_current_location(*world, *self) == Some(*location),
                forall|j: int|
                    0 <= j < i ==> !spec_hostile_undefeated(
                        *world,
                        *self,
                        (#[trigger] location.content.npcs@[j])@,
                    ),
            decreases n - i,
        {
            let npc_tag = &location.content.npcs[i];
            match find_npc(world, npc_tag.as_str()) {
                Some(npc) => {
                    if npc.attitude == Attitude::Hostile && !names_has(
                        &self.defeated_npcs,
                        npc.base.tag.as_str(),
                    ) {
                        return true;
                    }
                },
                None => {},
            }
            i += 1;
        }
        false
    }

    /// The connection tags a player can take from where they stand:
    /// exits that resolve in the catalog and are visible or discovered.
    pub fn show_available_locations(&self, world: &World) -> (r: Vec<String>)
        ensures
            r@ == (match spec_current_location(*world, *self) {
                Some(l) => exits_of(*world, *self, l.connections@),
                None => Seq::<String>::empty(),
            }),
    {
        let mut out: Vec<String> = Vec::new();
        let location_tag = match &self.current_location {
            Some(t) => t,
            None => {
                return out;
            },
        };
        let location = match find_location(world, location_tag.as_str()) {
            Some(l) => l,
            None => {
                return out;
            },
        };
        let n = location.connections.len();
        let mut i: usize = 0;
        while i < n
            invariant
                n == location.connections@.len(),
                0 <= i <= n,
                spec_current_location(*world, *self) == Some(*location),
                out@ == exits_of(*world, *self, location.connections@.subrange(0, i as int)),
            decreases n - i,
        {
            proof {
                assert(location.connections@.subrange(0, i + 1 as int)
                    =~= location.connections@.subrange(0, i as int).push(
                    location.connections@[i as int],
                ));
                lemma_exits_of_push(
                    *world,
                    *self,
                    location.connections@.subrange(0, i as int),
                    location.connections@[i as int],
                );
            }
            let conn = &location.connections[i];
            match find_location(world, conn.as_str()) {
                Some(connected) => {
                    if connected.base.visible || names_has(&self.discovered_locations, conn.as_str())
                    {
                        out.push(conn.clone());
                    }
                },
                None => {},
            }
            i += 1;
        }
        proof {
            assert(location.connections@.subrange(0, n as int) =~= location.connections@);
        }
        out
    }

    /// The same exit listing, offered when a move names no target.
    pub fn show_default_locations(&self, world: &World) -> (r: Vec<String>)
        ensures
            r@ == (match spec_current_location(*world, *self) {
                Some(l) => exits_of(*world, *self, l.connections@),
                None => Seq::<String>::empty(),
            }),
    {
        self.show_available_locations(world)
    }
}

/// What a move request comes to. Only `Moved` changes the player's state.
#[derive(Debug)]
pub enum GoOutcome {
    /// The move went through and the current location changed.
    Moved,
    /// No target was named: the visible exits are listed instead.
    Neighbors(Vec<String>),
    /// Undefeated hostiles block any movement away from here.
    HostilesPresent,
    /// The named target is not a location the catalog knows.
    NoSuchLocation,
    /// The stored current location no longer resolves in the catalog.
    UnknownCurrentLocation,
    /// The target is not connected to the current location; the valid
    /// exits are listed.
    NoPathFromHere(Vec<String>),
    /// A passage on this edge asks for an item the party does not carry.
    MissingItem,
    /// A passage on this edge asks for a key the party does not carry.
    MissingKey,
    /// A passage on this edge poses this riddle; answer it to pass.
    RiddleAsked(String),
    /// The riddle was declined; the move is abandoned without penalty.
    RiddleCancelled,
    /// The riddle was answered wrongly; the passage stays closed.
    WrongRiddleAnswer,
}

/// Whether the passage (if any) demands an item the inventory lacks.
pub open spec fn spec_item_blocked(pass: Option<Passage>, inv: Seq<Item>) -> bool {
    match pass {
        Some(p) => p.requires_item && (match p.item_tag {
            Some(t) => !spec_has_item(inv, t@),
            None => false,
        }),
        None => false,
    }
}

/// Whether the passage (if any) demands a key the inventory lacks.
pub open spec fn spec_key_blocked(pass: Option<Passage>, inv: Seq<Item>) -> bool {
    match pass {
        Some(p) => p.requires_key && (match p.key_tag {
            Some(t) => !spec_has_item(inv, t@),
            None => false,
        }),
        None => false,
    }
}

/// The riddle a passage poses, as question and expected answer, when it
/// carries a complete one.
pub open spec fn spec_riddle_of(pass: Option<Passage>) -> Option<(Seq<char>, Seq<char>)> {
    match pass {
        Some(p) => if p.has_riddle && p.riddle is Some && p.riddle_answer is Some {
            Some((p.riddle->Some_0@, p.riddle_answer->Some_0@))
        } else {
            None
        },
        None => None,
    }
}

/// A successful move: the current location becomes the target and
/// nothing else changes.
pub open spec fn spec_moved(p0: Player, p1: Player, t: &str, r: GoOutcome) -> bool {
    &&& r is Moved
    &&& (p1.current_location matches Some(ct) && ct@ == t@)
    &&& p1 == (Player { current_location: p1.current_location, ..p0 })
}

/// The full decision table of a move request: which outcome comes back
/// for which state, and that the state changes exactly on `Moved`.
pub open spec fn spec_go_post(
    world: World,
    p0: Player,
    p1: Player,
    target: Option<&str>,
    riddle_answer: Option<&str>,
    r: GoOutcome,
) -> bool {
    let exits = match spec_current_location(world, p0) {
        Some(l) => exits_of(world, p0, l.connections@),
        None => Seq::<String>::empty(),
    };
    if spec_has_hostiles(world, p0) {
        r is HostilesPresent && p1 == p0
    } else {
        match target {
            None => (r matches GoOutcome::Neighbors(v) && v@ == exits) && p1 == p0,
            Some(t) => match p0.current_location {
                None => if locs_have_tag(world.locations@, t@) {
                    spec_moved(p0, p1, t, r)
                } else {
                    r is NoSuchLocation && p1 == p0
                },
                Some(c) => match spec_find_location(world.locations@, c@) {
                    None => r is UnknownCurrentLocation && p1 == p0,
                    Some(loc) => if !names_contain(loc.connections@, t@) {
                        (r matches GoOutcome::NoPathFromHere(v) && v@ == exits) && p1 == p0
                    } else if !locs_have_tag(world.locations@, t@) {
                        r is NoSuchLocation && p1 == p0
                    } else {
                        let pass = spec_find_passage_between(world.passages@, c@, t@);
                        if spec_item_blocked(pass, p0.inventory@) {
                            r is MissingItem && p1 == p0
                        } else if spec_key_blocked(pass, p0.inventory@) {
                            r is MissingKey && p1 == p0
                        } else {
                            match spec_riddle_of(pass) {
                                Some(qa) => match riddle_answer {
                                    None => (r matches GoOutcome::RiddleAsked(q) && q@ == qa.0)
                                        && p1 == p0,
                                    Some(a) => {
                                        let ans = lower_of(trim_of(a@));
                                        if ans == "cancelar"@ {
                                            r is RiddleCancelled && p1 == p0
                                        } else if ans != lower_of(qa.1) {
                                            r is WrongRiddleAnswer && p1 == p0
                                        } else {
                                            spec_moved(p0, p1, t, r)
                                        }
                                    },
                                },
                                None => spec_moved(p0, p1, t, r),
                            }
                        }
                    },
                },
            },
        }
    }
}

impl Player {
    /// Resolves a move request: refused while hostiles stand here; a
    /// missing target lists the exits; otherwise the target must be a
    /// known, connected location whose passage conditions — required
    /// item, required key, riddle — are all met. A riddle with no
    /// answer supplied suspends the move and asks for one; answering
    /// `cancelar` abandons it. On failure nothing changes.
    pub fn execute_go(&mut self, world: &World, target: Option<&str>, riddle_answer: Option<&str>)
        -> (r: GoOutcome)
        ensures
            spec_go_post(*world, *old(self), *final(self), target, riddle_answer, r),
            !(r is Moved) ==> *final(self) == *old(self),
            r is Moved ==> *final(self) == (Player {
                current_location: final(self).current_location,
                ..*old(self)
            }),
    {
        if self.has_hostile_npcs(world) {
            return GoOutcome::HostilesPresent;
        }
        let tag = match target {
            Some(t) => t,
            None => {
                return GoOutcome::Neighbors(self.show_available_locations(world));
            },
        };
        let cur: Option<String> = match &self.current_location {
            Some(c) => Some(c.clone()),
            None => None,
        };
        match cur {
            None => {
                if find_location(world, tag).is_some() {
                    self.set_current_location(Some(tag.to_owned()));
                    GoOutcome::Moved
                } else {
                    GoOutcome::NoSuchLocation
                }
            },
            Some(c) => {
                let location = match find_location(world, c.as_str()) {
                    Some(l) => l,
                    None => {
                        return GoOutcome::UnknownCurrentLocation;
                    },
                };
                if !names_has(&location.connections, tag) {
                    return GoOutcome::NoPathFromHere(self.show_available_locations(world));
                }
                if find_location(world, tag).is_none() {
                    return GoOutcome::NoSuchLocation;
                }
                match find_passage_between(world, c.as_str(), tag) {
                    Some(passage) => {
                        if passage.requires_item {
                            match &passage.item_tag {
                                Some(item_tag) => {
                                    if !self.has_item(item_tag.as_str()) {
                                        return GoOutcome::MissingItem;
                                    }
                                },
                                None => {},
                            }
                        }
                        if passage.requires_key {
                            match &passage.key_tag {
                                Some(key_tag) => {
                                    if !self.has_item(key_tag.as_str()) {
                                        return GoOutcome::MissingKey;
                                    }
                                },
                                None => {},
                            }
                        }
                        if passage.has_riddle {
                            match (&passage.riddle, &passage.riddle_answer) {
                                (Some(question), Some(expected)) => {
                                    match riddle_answer {
                                        None => {
                                            return GoOutcome::RiddleAsked(question.clone());
                                        },
                                        Some(a) => {
                                            let trimmed = trim_str(a);
                                            let ans = lowercase(trimmed.as_str());
                                            if str_eq(ans.as_str(), "cancelar") {
                                                return GoOutcome::RiddleCancelled;
                                            }
                                            let expected_lower = lowercase(expected.as_str());
                                            if !(ans == expected_lower) {
                                                return GoOutcome::WrongRiddleAnswer;
                                            }
                                        },
                                    }
                                },
                                _ => {},
                            }
                        }
                    },
                    None => {},
                }
                self.set_current_location(Some(tag.to_owned()));
                GoOutcome::Moved
            },
        }
    }
}

/// The item a take request would pick up: the first item with that tag
/// at the current location, provided it is visible or discovered and
/// not already picked.
pub open spec fn spec_takeable(world: World, p: Player, item_tag: Seq<char>) -> Option<Item> {
    match spec_current_location(world, p) {
        Some(l) => match crate::object::spec_find_item_in(l.content.items@, item_tag) {
            Some(it) => if (it.base.visible || names_contain(p.discovered_items@, it.base.tag@))
                && !names_contain(p.picked_items@, it.base.tag@) {
                Some(it)
            } else {
                None
            },
            None => None,
        },
        None => None,
    }
}

/// The location entry stored for the dropped item tagged `k`, if any.
pub open spec fn dropped_lookup(m: Seq<(String, String)>, k: Seq<char>) -> Option<Seq<char>>
    decreases m.len(),
{
    if m.len() == 0 {
        None
    } else if m[0].0@ == k {
        Some(m[0].1@)
    } else {
        dropped_lookup(m.drop_first(), k)
    }
}

proof fn lemma_dropped_lookup_update(m: Seq<(String, String)>, i: int, e: (String, String), k2: Seq<
    char,
>)
    requires
        0 <= i < m.len(),
        e.0@ == m[i].0@,
        forall|j: int| 0 <= j < i ==> m[j].0@ != m[i].0@,
    ensures
        k2 == m[i].0@ ==> dropped_lookup(m.update(i, e), k2) == Some(e.1@),
        k2 != m[i].0@ ==> dropped_lookup(m.update(i, e), k2) == dropped_lookup(m, k2),
    decreases i,
{
    let m2 = m.update(i, e);
    if i == 0 {
        assert(m2[0] == e);
        assert(m2.drop_first() =~= m.drop_first());
    } else {
        assert(m2[0] == m[0]);
        assert(m2.drop_first() =~= m.drop_first().update(i - 1, e));
        assert(m.drop_first()[i - 1] == m[i]);
        lemma_dropped_lookup_update(m.drop_first(), i - 1, e, k2);
    }
}

proof fn lemma_dropped_lookup_push(m: Seq<(String, String)>, e: (String, String), k2: Seq<char>)
    requires
        forall|j: int| 0 <= j < m.len() ==> m[j].0@ != e.0@,
    ensures
        k2 == e.0@ ==> dropped_lookup(m.push(e), k2) == Some(e.1@),
        k2 != e.0@ ==> dropped_lookup(m.push(e), k2) == dropped_lookup(m, k2),
    decreases m.len(),
{
    if m.len() == 0 {
        assert(m.push(e)[0] == e);
        assert(m.push(e).drop_first() =~= Seq::<(String, String)>::empty());
        assert(dropped_lookup(m.push(e).drop_first(), k2) is None);
        assert(dropped_lookup(m, k2) is None);
    } else {
        assert(m.push(e)[0] == m[0]);
        assert(m.push(e).drop_first() =~= m.drop_first().push(e));
        lemma_dropped_lookup_push(m.drop_first(), e, k2);
        assert(dropped_lookup(m.push(e).drop_first(), k2) == dropped_lookup(
            m.drop_first().push(e),
            k2,
        ));
    }
}

impl Player {
    /// Records that the item tagged `key` now lies at `val`, leaving
    /// every other dropped-item entry as it was.
    fn set_dropped(&mut self, key: &str, val: String)
        ensures
            *final(self) == (Player { dropped_items: final(self).dropped_items, ..*old(self) }),
            dropped_lookup(final(self).dropped_items@, key@) == Some(val@),
            forall|k2: Seq<char>|
                k2 != key@ ==> dropped_lookup(final(self).dropped_items@, k2) == dropped_lookup(
                    old(self).dropped_items@,
                    k2,
                ),
    {
        let ghost m0 = self.dropped_items@;
        let n = self.dropped_items.len();
        let mut i: usize = 0;
        while i < n
            invariant
                n == self.dropped_items@.len(),
                0 <= i <= n,
                *self == *old(self),
                self.dropped_items@ == m0,
                forall|j: int| 0 <= j < i ==> m0[j].0@ != key@,
            decreases n - i,
        {
            if str_eq(self.dropped_items[i].0.as_str(), key) {
                let entry = (self.dropped_items[i].0.clone(), val);
                proof {
                    lemma_dropped_lookup_update(m0, i as int, entry, key@);
                }
                assert forall|k2: Seq<char>| k2 != key@ implies dropped_lookup(
                    m0.update(i as int, entry),
                    k2,
                ) == dropped_lookup(m0, k2) by {
                    lemma_dropped_lookup_update(m0, i as int, entry, k2);
                }
                self.dropped_items[i] = entry;
                return ;
            }
            i += 1;
        }
        let entry = (key.to_owned(), val);
        proof {
            lemma_dropped_lookup_push(m0, entry, key@);
        }
        assert forall|k2: Seq<char>| k2 != key@ implies dropped_lookup(m0.push(entry), k2)
            == dropped_lookup(m0, k2) by {
            lemma_dropped_lookup_push(m0, entry, k2);
        }
        self.dropped_items.push(entry);
    }

    /// Picks up the named item at the current location, if it is there,
    /// visible or discovered, and not already taken: the item joins the
    /// inventory and its tag the picked set. Otherwise nothing changes.
    pub fn execute_take(&mut self, world: &World, item_tag: &str) -> (r: bool)
        ensures
            r == spec_takeable(*world, *old(self), item_tag@) is Some,
            spec_takeable(*world, *old(self), item_tag@) matches Some(it) ==> (*final(self)
                == (Player {
                inventory: final(self).inventory,
                picked_items: final(self).picked_items,
                ..*old(self)
            }) && final(self).inventory@ == old(self).inventory@.push(it) && final(self).picked_items@ == old(self).picked_items@.push(it.base.tag)),
            !r ==> *final(self) == *old(self),
    {
        let location_tag = match &self.current_location {
            Some(t) => t,
            None => {
                return false;
            },
        };
        let location = match find_location(world, location_tag.as_str()) {
            Some(l) => l,
            None => {
                return false;
            },
        };
        let item = match find_item_in_location(location, item_tag) {
            Some(it) => it,
            None => {
                return false;
            },
        };
        if (item.base.visible || names_has(&self.discovered_items, item.base.tag.as_str()))
            && !names_has(&self.picked_items, item.base.tag.as_str()) {
            let taken = item.clone();
            let tag_copy = taken.base.tag.clone();
            self.inventory.push(taken);
            self.picked_items.push(tag_copy);
            true
        } else {
            false
        }
    }

    /// Leaves the named inventory item at the current location: it
    /// leaves the inventory and the picked set, and the dropped-item
    /// register points its tag here. With no such item nothing changes.
    pub fn execute_drop(&mut self, world: &World, item_tag: &str) -> (r: bool)
        ensures
            r == (spec_current_location(*world, *old(self)) is Some && spec_has_item(
                old(self).inventory@,
                item_tag@,
            )),
            r ==> *final(self) == (Player {
                inventory: final(self).inventory,
                picked_items: final(self).picked_items,
                dropped_items: final(self).dropped_items,
                ..*old(self)
            }),
            r ==> (exists|i: int|
                {
                    &&& 0 <= i < old(self).inventory@.len()
                    &&& old(self).inventory@[i].base.tag@ == item_tag@
                    &&& (forall|j: int|
                        0 <= j < i ==> old(self).inventory@[j].base.tag@ != item_tag@)
                    &&& final(self).inventory@ == old(self).inventory@.remove(i)
                }),
            r ==> final(self).picked_items@ == crate::object::names_without(
                old(self).picked_items@,
                item_tag@,
            ),
            r ==> dropped_lookup(final(self).dropped_items@, item_tag@) == Some(
                old(self).current_location->Some_0@,
            ),
            r ==> (forall|k2: Seq<char>|
                k2 != item_tag@ ==> dropped_lookup(final(self).dropped_items@, k2)
                    == dropped_lookup(old(self).dropped_items@, k2)),
            !r ==> *final(self) == *old(self),
    {
        let location_tag: String = match &self.current_location {
            Some(t) => t.clone(),
            None => {
                return false;
            },
        };
        if find_location(world, location_tag.as_str()).is_none() {
            return false;
        }
        let n = self.inventory.len();
        let mut i: usize = 0;
        let mut found: Option<usize> = None;
        while i < n
            invariant
                n == self.inventory@.len(),
                0 <= i <= n,
                *self == *old(self),
                found matches Some(k) ==> 0 <= k < i && self.inventory@[k as int].base.tag@
                    == item_tag@ && (forall|j: int|
                    0 <= j < k ==> self.inventory@[j].base.tag@ != item_tag@),
                found is None ==> (forall|j: int|
                    0 <= j < i ==> self.inventory@[j].base.tag@ != item_tag@),
            decreases n - i,
        {
            if found.is_none() && str_eq(self.inventory[i].base.tag.as_str(), item_tag) {
                found = Some(i);
            }
            i += 1;
        }
        let idx = match found {
            Some(k) => k,
            None => {
                return false;
            },
        };
        let ghost p0 = *self;
        let _removed = self.inventory.remove(idx);

        let mut kept: Vec<String> = Vec::new();
        let m = self.picked_items.len();
        let mut k: usize = 0;
        while k < m
            invariant
                m == self.picked_items@.len(),
                0 <= k <= m,
                *self == (Player { inventory: self.inventory, ..p0 }),
                self.inventory@ == p0.inventory@.remove(idx as int),
                kept@ == crate::object::names_without(
                    self.picked_items@.subrange(0, k as int),
                    item_tag@,
                ),
            decreases m - k,
        {
            proof {
                assert(self.picked_items@.subrange(0, k + 1 as int) =~= self.picked_items@.subrange(
                    0,
                    k as int,
                ).push(self.picked_items@[k as int]));
                crate::object::lemma_names_without_push(
                    self.picked_items@.subrange(0, k as int),
                    item_tag@,
                    self.picked_items@[k as int],
                );
            }
            if !str_eq(self.picked_items[k].as_str(), item_tag) {
                kept.push(self.picked_items[k].clone());
            }
            k += 1;
        }
        proof {
            assert(self.picked_items@.subrange(0, m as int) =~= self.picked_items@);
        }
        self.picked_items = kept;
        self.set_dropped(item_tag, location_tag);
        true
    }
}

/// The character sequences of a list of strings, in order.
pub open spec fn name_views(names: Seq<String>) -> Seq<Seq<char>> {
    names.map_values(|s: String| s@)
}

proof fn lemma_name_views_push(names: Seq<String>, s: String)
    ensures
        name_views(names.push(s)) == name_views(names).push(s@),
{
    assert(name_views(names.push(s)) =~= name_views(names).push(s@));
}

/// The tags a successful search reveals among `items`: those of the
/// hidden items not yet in `discovered`, in catalog order.
pub open spec fn spec_revealed_item_tags(items: Seq<Item>, discovered: Seq<String>) -> Seq<
    Seq<char>,
>
    decreases items.len(),
{
    if items.len() == 0 {
        Seq::empty()
    } else {
        let prefix = spec_revealed_item_tags(items.drop_last(), discovered);
        let it = items.last();
        if !it.base.visible && !names_contain(discovered, it.base.tag@) {
            prefix.push(it.base.tag@)
        } else {
            prefix
        }
    }
}

/// The tags a successful search reveals among the connections `conns`:
/// those resolving to hidden locations not yet in `discovered`.
pub open spec fn spec_revealed_location_tags(
    world: World,
    conns: Seq<String>,
    discovered: Seq<String>,
) -> Seq<Seq<char>>
    decreases conns.len(),
{
    if conns.len() == 0 {
        Seq::empty()
    } else {
        let prefix = spec_revealed_location_tags(world, conns.drop_last(), discovered);
        match spec_find_location(world.locations@, conns.last()@) {
            Some(ll) => if !ll.base.visible && !names_contain(discovered, ll.base.tag@) {
                prefix.push(ll.base.tag@)
            } else {
                prefix
            },
            None => prefix,
        }
    }
}

/// The chance (in percent) that a search succeeds: a base of fifty,
/// five more per prior attempt up to five attempts, twenty more with a
/// light source, clamped into [5, 95].
pub open spec fn spec_search_chance(attempts: u32, has_light: bool) -> int {
    let base = 50 + (if attempts > 5 {
        5int
    } else {
        attempts as int
    }) * 5 + (if has_light {
        20int
    } else {
        0int
    });
    if base < 5 {
        5
    } else if base > 95 {
        95
    } else {
        base
    }
}

/// Computes the search success chance for a location searched
/// `attempts` times before, with or without a light source.
pub fn search_success_chance(attempts: u32, has_light: bool) -> (r: u32)
    ensures
        r == spec_search_chance(attempts, has_light),
        5 <= r <= 95,
{
    let attempts_bonus: u32 = (if attempts > 5 {
        5
    } else {
        attempts
    }) * 5;
    let mut chance: u32 = 50 + attempts_bonus;
    if has_light {
        chance = chance + 20;
    }
    if chance < 5 {
        chance = 5;
    }
    if chance > 95 {
        chance = 95;
    }
    chance
}

/// The search success chance never falls as attempts accumulate, and
/// always lies within [5, 95] whatever the inputs.
pub proof fn lemma_search_chance_monotonic(a1: u32, a2: u32, has_light: bool)
    requires
        a1 <= a2,
    ensures
        spec_search_chance(a1, has_light) <= spec_search_chance(a2, has_light),
        5 <= spec_search_chance(a1, has_light) <= 95,
{
}

/// How a failed search leaves the player: only the attempt counter of
/// the searched location grows by one.
pub open spec fn spec_search_failure(p0: Player, p1: Player, cur: Seq<char>) -> bool {
    let att = attempts_lookup(p0.search_attempts@, cur);
    let bumped: u32 = if att == 0xffff_ffffu32 {
        att
    } else {
        (att + 1) as u32
    };
    &&& p1 == (Player { search_attempts: p1.search_attempts, ..p0 })
    &&& attempts_lookup(p1.search_attempts@, cur) == bumped
    &&& (forall|k2: Seq<char>|
        k2 != cur ==> attempts_lookup(p1.search_attempts@, k2) == attempts_lookup(
            p0.search_attempts@,
            k2,
        ))
}

/// How a successful search leaves the player: every hidden item and
/// hidden connected location not yet discovered becomes discovered in
/// one stroke, and the attempt counter of this location resets.
pub open spec fn spec_search_success(
    world: World,
    p0: Player,
    p1: Player,
    cur: Seq<char>,
    l: Location,
    revealed: Seq<Seq<char>>,
) -> bool {
    let ri = spec_revealed_item_tags(l.content.items@, p0.discovered_items@);
    let rl = spec_revealed_location_tags(world, l.connections@, p0.discovered_locations@);
    &&& revealed == ri + rl
    &&& name_views(p1.discovered_items@) == name_views(p0.discovered_items@) + ri
    &&& name_views(p1.discovered_locations@) == name_views(p0.discovered_locations@) + rl
    &&& attempts_lookup(p1.search_attempts@, cur) == 0
    &&& (forall|k2: Seq<char>|
        k2 != cur ==> attempts_lookup(p1.search_attempts@, k2) == attempts_lookup(
            p0.search_attempts@,
            k2,
        ))
    &&& p1 == (Player {
        search_attempts: p1.search_attempts,
        discovered_items: p1.discovered_items,
        discovered_locations: p1.discovered_locations,
        ..p0
    })
}

/// What a search request comes to.
#[derive(Debug)]
pub enum SearchOutcome {
    /// A search was rolled: whether it succeeded, and the tags it
    /// revealed (a successful search may still reveal nothing new).
    Searched(bool, Vec<String>),
    /// Ten encounters have been won: the leveling gate must resolve
    /// before any further action.
    LevelUpPending,
}

impl Player {
    /// Rolls the given percentile die against the search chance at the
    /// current location. On failure only the attempt counter grows; on
    /// success everything hidden here is revealed at once and the
    /// counter resets.
    pub fn search_with_roll(&mut self, world: &World, roll: u8) -> (r: (bool, Vec<String>))
        requires
            1 <= roll <= 100,
        ensures
            spec_current_location(*world, *old(self)) is None ==> !r.0 && r.1@.len() == 0
                && *final(self) == *old(self),
            spec_current_location(*world, *old(self)) matches Some(l) ==> ({
                let cur = old(self).current_location->Some_0@;
                let chance = spec_search_chance(
                    attempts_lookup(old(self).search_attempts@, cur),
                    spec_has_item(old(self).inventory@, "antorcha"@),
                );
                &&& r.0 == (roll <= chance)
                &&& (r.0 ==> spec_search_success(
                    *world,
                    *old(self),
                    *final(self),
                    cur,
                    l,
                    name_views(r.1@),
                ))
                &&& (!r.0 ==> r.1@.len() == 0 && spec_search_failure(*old(self), *final(self), cur))
            }),
    {
        let cur: String = match &self.current_location {
            Some(t) => t.clone(),
            None => {
                return (false, Vec::new());
            },
        };
        let location = match find_location(world, cur.as_str()) {
            Some(l) => l,
            None => {
                return (false, Vec::new());
            },
        };
        let attempts = self.get_search_attempts(cur.as_str());
        let has_light = self.has_item("antorcha");
        let chance = search_success_chance(attempts, has_light);
        if (roll as u32) > chance {
            let bumped: u32 = if attempts == 0xffff_ffffu32 {
                attempts
            } else {
                attempts + 1
            };
            self.set_search_attempts(cur.as_str(), bumped);
            return (false, Vec::new());
        }
        // Collect what this search uncovers before touching any state.
        let mut revealed_items: Vec<String> = Vec::new();
        let n = location.content.items.len();
        let mut i: usize = 0;
        while i < n
            invariant
                n == location.content.items@.len(),
                0 <= i <= n,
                *self == *old(self),
                name_views(revealed_items@) == spec_revealed_item_tags(
                    location.content.items@.subrange(0, i as int),
                    self.discovered_items@,
                ),
            decreases n - i,
        {
            proof {
                assert(location.content.items@.subrange(0, i + 1 as int).drop_last()
                    =~= location.content.items@.subrange(0, i as int));
                assert(location.content.items@.subrange(0, i + 1 as int).last()
                    == location.content.items@[i as int]);
            }
            let it = &location.content.items[i];
            if !it.base.visible && !names_has(&self.discovered_items, it.base.tag.as_str()) {
                let tag_copy = it.base.tag.clone();
                proof {
                    lemma_name_views_push(revealed_items@, it.base.tag);
                }
                revealed_items.push(tag_copy);
            }
            i += 1;
        }
        proof {
            assert(location.content.items@.subrange(0, n as int) =~= location.content.items@);
        }
        let mut revealed_locs: Vec<String> = Vec::new();
        let m = location.connections.len();
        let mut j: usize = 0;
        while j < m
            invariant
                m == location.connections@.len(),
                0 <= j <= m,
                *self == *old(self),
                name_views(revealed_locs@) == spec_revealed_location_tags(
                    *world,
                    location.connections@.subrange(0, j as int),
                    self.discovered_locations@,
                ),
            decreases m - j,
        {
            proof {
                assert(location.connections@.subrange(0, j + 1 as int).drop_last()
                    =~= location.connections@.subrange(0, j as int));
                assert(location.connections@.subrange(0, j + 1 as int).last()
                    == location.connections@[j as int]);
            }
            match find_location(world, location.connections[j].as_str()) {
                Some(ll) => {
                    if !ll.base.visible && !names_has(
                        &self.discovered_locations,
                        ll.base.tag.as_str(),
                    ) {
                        let tag_copy = ll.base.tag.clone();
                        proof {
                            lemma_name_views_push(revealed_locs@, ll.base.tag);
                        }
                        revealed_locs.push(tag_copy);
                    }
                },
                None => {},
            }
            j += 1;
        }
        proof {
            assert(location.connections@.subrange(0, m as int) =~= location.connections@);
        }
        // Record the discoveries.
        let ghost p_mid = *self;
        let ri_len = revealed_items.len();
        let mut k: usize = 0;
        while k < ri_len
            invariant
                ri_len == revealed_items@.len(),
                0 <= k <= ri_len,
                *self == (Player { discovered_items: self.discovered_items, ..p_mid }),
                name_views(self.discovered_items@) == name_views(p_mid.discovered_items@)
                    + name_views(revealed_items@.subrange(0, k as int)),
            decreases ri_len - k,
        {
            proof {
                assert(revealed_items@.subrange(0, k + 1 as int) =~= revealed_items@.subrange(
                    0,
                    k as int,
                ).push(revealed_items@[k as int]));
                lemma_name_views_push(
                    revealed_items@.subrange(0, k as int),
                    revealed_items@[k as int],
                );
                lemma_name_views_push(self.discovered_items@, revealed_items@[k as int]);
                assert(name_views(p_mid.discovered_items@) + name_views(
                    revealed_items@.subrange(0, k as int),
                ).push(revealed_items@[k as int]@) =~= (name_views(p_mid.discovered_items@)
                    + name_views(revealed_items@.subrange(0, k as int))).push(
                    revealed_items@[k as int]@,
                ));
            }
            let t = revealed_items[k].clone();
            self.discovered_items.push(t);
            k += 1;
        }
        proof {
            assert(revealed_items@.subrange(0, ri_len as int) =~= revealed_items@);
        }
        let ghost p_mid2 = *self;
        let rl_len = revealed_locs.len();
        let mut k2: usize = 0;
        while k2 < rl_len
            invariant
                rl_len == revealed_locs@.len(),
                0 <= k2 <= rl_len,
                *self == (Player { discovered_locations: self.discovered_locations, ..p_mid2 }),
                name_views(self.discovered_locations@) == name_views(p_mid2.discovered_locations@)
                    + name_views(revealed_locs@.subrange(0, k2 as int)),
            decreases rl_len - k2,
        {
            proof {
                assert(revealed_locs@.subrange(0, k2 + 1 as int) =~= revealed_locs@.subrange(
                    0,
                    k2 as int,
                ).push(revealed_locs@[k2 as int]));
                lemma_name_views_push(
                    revealed_locs@.subrange(0, k2 as int),
                    revealed_locs@[k2 as int],
                );
                lemma_name_views_push(self.discovered_locations@, revealed_locs@[k2 as int]);
                assert(name_views(p_mid2.discovered_locations@) + name_views(
                    revealed_locs@.subrange(0, k2 as int),
                ).push(revealed_locs@[k2 as int]@) =~= (name_views(p_mid2.discovered_locations@)
                    + name_views(revealed_locs@.subrange(0, k2 as int))).push(
                    revealed_locs@[k2 as int]@,
                ));
            }
            let t = revealed_locs[k2].clone();
            self.discovered_locations.push(t);
            k2 += 1;
        }
        proof {
            assert(revealed_locs@.subrange(0, rl_len as int) =~= revealed_locs@);
        }
        self.set_search_attempts(cur.as_str(), 0);
        let mut revealed = revealed_items;
        let mut locs_part = revealed_locs;
        proof {
            assert(name_views(revealed@ + locs_part@) =~= name_views(revealed@) + name_views(
                locs_part@,
            ));
        }
        revealed.append(&mut locs_part);
        (true, revealed)
    }

    /// Searches the current location with a fresh percentile roll; once
    /// ten encounters are won, the leveling gate must resolve first.
    pub fn execute_search(&mut self, world: &World) -> (r: SearchOutcome)
        ensures
            old(self).encounters_won >= 10 ==> r is LevelUpPending && *final(self) == *old(self),
            old(self).encounters_won < 10 ==> (r matches SearchOutcome::Searched(found, revealed)
                && {
                &&& spec_current_location(*world, *old(self)) is None ==> !found
                    && revealed@.len() == 0 && *final(self) == *old(self)
                &&& (spec_current_location(*world, *old(self)) matches Some(l) ==> ({
                    let cur = old(self).current_location->Some_0@;
                    &&& (found ==> spec_search_success(
                        *world,
                        *old(self),
                        *final(self),
                        cur,
                        l,
                        name_views(revealed@),
                    ))
                    &&& (!found ==> revealed@.len() == 0 && spec_search_failure(
                        *old(self),
                        *final(self),
                        cur,
                    ))
                }))
            }),
    {
        if self.encounters_won >= 10 {
            return SearchOutcome::LevelUpPending;
        }
        let roll = roll_1d100();
        let (found, revealed) = self.search_with_roll(world, roll);
        SearchOutcome::Searched(found, revealed)
    }
}

/// Whether one party attack fells an enemy: the die, the class bonus
/// and the flat equipment bonus together must reach the enemy level.
pub open spec fn spec_attack_hits(
    roll: u8,
    class_bonus: i32,
    equipment_bonus: i32,
    enemy_level: u8,
) -> bool {
    roll + class_bonus + equipment_bonus >= enemy_level
}

/// Resolves one party attack against an enemy of the given level.
pub fn attack_hits(roll: u8, class_bonus: i32, equipment_bonus: i32, enemy_level: u8) -> (r: bool)
    ensures
        r == spec_attack_hits(roll, class_bonus, equipment_bonus, enemy_level),
{
    (roll as i64) + (class_bonus as i64) + (equipment_bonus as i64) >= (enemy_level as i64)
}

/// The damage one counterattack deals: a roll of one is a critical
/// failure worth one point whatever the total; a six, or a total
/// strictly beating the enemy level, is a clean dodge; any other roll
/// costs one point.
pub open spec fn spec_defense_damage(
    roll: u8,
    equipment_defense: i32,
    class_defense: i32,
    enemy_level: u8,
) -> int {
    if roll == 1 {
        1
    } else if roll == 6 || roll + equipment_defense + class_defense > enemy_level {
        0
    } else {
        1
    }
}

/// Resolves one enemy counterattack against a defending member.
pub fn defense_damage(roll: u8, equipment_defense: i32, class_defense: i32, enemy_level: u8) -> (d:
    u32)
    ensures
        d == spec_defense_damage(roll, equipment_defense, class_defense, enemy_level),
        d <= 1,
{
    if roll == 1 {
        1
    } else if roll == 6 || (roll as i64) + (equipment_defense as i64) + (class_defense as i64)
        > (enemy_level as i64) {
        0
    } else {
        1
    }
}

/// How many members of the party can fell an enemy this round: those
/// still alive with a weapon equipped.
pub open spec fn spec_armed_alive(chars: Seq<Character>) -> int
    decreases chars.len(),
{
    if chars.len() == 0 {
        0
    } else {
        spec_armed_alive(chars.drop_last()) + (if chars.last().hit_points > 0
            && chars.last().weapon is Some {
            1int
        } else {
            0int
        })
    }
}

/// Whether every living, armed member of the party is certain to fell
/// an enemy of `enemy_level`: even a roll of one, with the member's
/// class and weapon bonuses, reaches the level. Under this condition a
/// round's kills are pinned exactly, whatever the dice show.
pub open spec fn spec_party_always_hits(
    chars: Seq<Character>,
    enemies_outnumbered: bool,
    tags: Seq<NPCTag>,
    enemy_level: u8,
) -> bool {
    forall|i: int|
        0 <= i < chars.len() ==> (((#[trigger] chars[i]).hit_points > 0 && chars[i].weapon is Some)
            ==> 1 + spec_class_attack_bonus(chars[i], enemies_outnumbered, tags)
            + spec_weapon_attack_bonus(chars[i].weapon->Some_0) >= enemy_level)
}

/// How many counterattackers the round-robin rule sends against the
/// member at index `i` when `r` enemies survive the party phase and
/// the party counts `n` members: the first `r - n` members face two
/// when the enemies outnumber the party, the next face one up to `r`,
/// and any member beyond faces none.
pub open spec fn spec_attackers_for(i: int, r: int, n: int) -> int {
    if i < r - n {
        2
    } else if i < r {
        1
    } else {
        0
    }
}

/// How one combat round may change the party: the roster, each
/// member's identity, class, level and equipment stay as they were;
/// only hit points can fall, and a well-formed member stays well
/// formed.
pub open spec fn spec_round_chars(p0: Player, p1: Player) -> bool {
    &&& p1.characters@.len() == p0.characters@.len()
    &&& (forall|i: int|
        0 <= i < p0.characters@.len() ==> #[trigger] p1.characters@[i] == (Character {
            hit_points: p1.characters@[i].hit_points,
            ..p0.characters@[i]
        }))
    &&& (forall|i: int|
        0 <= i < p0.characters@.len() ==> #[trigger] p1.characters@[i].hit_points
            <= p0.characters@[i].hit_points)
}

impl Player {
    /// One round of group combat: first every living, armed member of
    /// the party attacks in order, each felling one enemy exactly when
    /// `attack_hits` says its roll, class bonus and equipment bonus
    /// reach the enemy level; then the `r` surviving enemies strike
    /// back round-robin, `spec_attackers_for` many against each member,
    /// each attack dealing what `defense_damage` says for its roll,
    /// floored at zero hit points. So no more enemies fall than there
    /// are living armed members, and no member loses more than its
    /// share of counterattacks. Returns how many enemies remain.
    pub fn execute_combat_round<D: DiceRoller>(
        &mut self,
        npc: &NPC,
        enemies_remaining: u8,
        round: &mut u32,
        dice: &mut D,
    ) -> (r: u8)
        requires
            forall|i: int|
                0 <= i < old(self).characters@.len() ==> (#[trigger] old(self).characters@[i]).wf(),
        ensures
            r <= enemies_remaining,
            enemies_remaining - r <= spec_armed_alive(old(self).characters@),
            spec_party_always_hits(
                old(self).characters@,
                enemies_remaining > old(self).characters@.len(),
                npc.tags@,
                npc.level,
            ) ==> enemies_remaining - r == (if spec_armed_alive(old(self).characters@)
                <= enemies_remaining {
                spec_armed_alive(old(self).characters@)
            } else {
                enemies_remaining as int
            }),
            forall|i: int|
                0 <= i < old(self).characters@.len() ==> old(self).characters@[i].hit_points - (
                #[trigger] final(self).characters@[i]).hit_points <= spec_attackers_for(
                    i,
                    r as int,
                    old(self).characters@.len() as int,
                ),
            *final(round) == (if *old(round) == 0xffff_ffffu32 {
                *old(round) as int
            } else {
                *old(round) + 1
            }),
            *final(self) == (Player { characters: final(self).characters, ..*old(self) }),
            spec_round_chars(*old(self), *final(self)),
            forall|i: int|
                0 <= i < old(self).characters@.len() ==> (#[trigger] final(self).characters@[i]).wf(),
    {
        *round = if *round == 0xffff_ffffu32 {
            *round
        } else {
            *round + 1
        };

        // Party attack phase.
        let mut enemies_defeated: u8 = 0;
        let nchars = self.characters.len();
        let enemies_outnumbered = (enemies_remaining as usize) > nchars;
        let mut ci: usize = 0;
        while ci < nchars
            invariant
                nchars == self.characters@.len(),
                0 <= ci <= nchars,
                enemies_outnumbered == (enemies_remaining > nchars),
                enemies_defeated <= enemies_remaining,
                enemies_defeated <= spec_armed_alive(self.characters@.subrange(0, ci as int)),
                spec_party_always_hits(
                    self.characters@,
                    enemies_outnumbered,
                    npc.tags@,
                    npc.level,
                ) ==> enemies_defeated == (if spec_armed_alive(
                    self.characters@.subrange(0, ci as int),
                ) <= enemies_remaining {
                    spec_armed_alive(self.characters@.subrange(0, ci as int))
                } else {
                    enemies_remaining as int
                }),
                forall|i: int|
                    0 <= i < self.characters@.len() ==> (#[trigger] self.characters@[i]).wf(),
            decreases nchars - ci,
        {
            proof {
                assert(self.characters@.subrange(0, ci + 1 as int).drop_last()
                    =~= self.characters@.subrange(0, ci as int));
                assert(self.characters@.subrange(0, ci + 1 as int).last()
                    == self.characters@[ci as int]);
            }
            if enemies_defeated < enemies_remaining {
                let character = &self.characters[ci];
                if character.is_alive() {
                    match character.get_equipment_attack_bonus() {
                        None => {},
                        Some(equipment_bonus) => {
                            let attack_roll = dice.roll_1d6();
                            let class_bonus = character.get_class_attack_bonus(
                                enemies_outnumbered,
                                &npc.tags,
                            );
                            if attack_hits(attack_roll, class_bonus, equipment_bonus, npc.level) {
                                enemies_defeated = enemies_defeated + 1;
                            }
                        },
                    }
                }
            }
            ci += 1;
        }
        proof {
            assert(self.characters@.subrange(0, nchars as int) =~= self.characters@);
        }

        let remaining_after_attack = enemies_remaining - enemies_defeated;

        // Enemy counterattack phase: only survivors strike back.
        if remaining_after_attack > 0 {
            let enemies_that_can_attack = remaining_after_attack as usize;
            let extra_enemies = if enemies_that_can_attack > nchars {
                enemies_that_can_attack - nchars
            } else {
                0
            };
            let mut i: usize = 0;
            while i < nchars
                invariant
                    nchars == self.characters@.len(),
                    nchars == old(self).characters@.len(),
                    0 <= i <= nchars,
                    enemies_that_can_attack == remaining_after_attack as int,
                    extra_enemies == (if enemies_that_can_attack > nchars {
                        enemies_that_can_attack - nchars
                    } else {
                        0int
                    }),
                    *self == (Player { characters: self.characters, ..*old(self) }),
                    spec_round_chars(*old(self), *self),
                    forall|k: int|
                        0 <= k < i ==> old(self).characters@[k].hit_points - (
                        #[trigger] self.characters@[k]).hit_points <= spec_attackers_for(
                            k,
                            remaining_after_attack as int,
                            nchars as int,
                        ),
                    forall|k: int|
                        i <= k < nchars ==> (#[trigger] self.characters@[k]).hit_points == old(self).characters@[k].hit_points,
                    forall|k: int|
                        0 <= k < self.characters@.len() ==> (#[trigger] self.characters@[k]).wf(),
                decreases nchars - i,
            {
                let enemies_for_this_char: usize = if i < extra_enemies {
                    2
                } else if i < enemies_that_can_attack {
                    1
                } else {
                    0
                };
                proof {
                    assert(enemies_for_this_char as int == spec_attackers_for(
                        i as int,
                        remaining_after_attack as int,
                        nchars as int,
                    ));
                }
                let mut a: usize = 0;
                while a < enemies_for_this_char
                    invariant
                        nchars == self.characters@.len(),
                        nchars == old(self).characters@.len(),
                        0 <= i < nchars,
                        0 <= a <= enemies_for_this_char,
                        enemies_for_this_char as int == spec_attackers_for(
                            i as int,
                            remaining_after_attack as int,
                            nchars as int,
                        ),
                        *self == (Player { characters: self.characters, ..*old(self) }),
                        spec_round_chars(*old(self), *self),
                        old(self).characters@[i as int].hit_points
                            - self.characters@[i as int].hit_points <= a,
                        forall|k: int|
                            0 <= k < i ==> old(self).characters@[k].hit_points - (
                            #[trigger] self.characters@[k]).hit_points <= spec_attackers_for(
                                k,
                                remaining_after_attack as int,
                                nchars as int,
                            ),
                        forall|k: int|
                            i < k < nchars ==> (#[trigger] self.characters@[k]).hit_points == old(self).characters@[k].hit_points,
                        forall|k: int|
                            0 <= k < self.characters@.len() ==> (
                            #[trigger] self.characters@[k]).wf(),
                    decreases enemies_for_this_char - a,
                {
                    let defense_roll = dice.roll_1d6();
                    let equipment_defense_bonus = self.characters[i].get_equipment_defense_bonus();
                    let class_defense_bonus = self.characters[i].get_class_defense_bonus(&npc.tags);
                    let damage = defense_damage(
                        defense_roll,
                        equipment_defense_bonus,
                        class_defense_bonus,
                        npc.level,
                    );
                    self.characters[i].take_damage(damage);
                    a += 1;
                }
                i += 1;
            }
        }

        remaining_after_attack
    }
}

/// What an attack request comes to.
#[derive(Debug)]
pub enum AttackOutcome {
    /// Ten encounters have been won: the leveling gate must resolve
    /// before any further action.
    LevelUpPending,
    /// No undefeated hostile group stands here; any stale combat state
    /// is cleared.
    NoEnemies,
    /// The party fled: combat state clears with no penalty.
    Fled,
    /// Using an item in combat is not implemented.
    ItemStubbed,
    /// The caller should show the detailed party status.
    StatusRequested,
    /// A continuation was asked for but no combat is active.
    NoCombatInProgress,
    /// A round was fought: how many fell this round, and how many
    /// remain; combat pauses for the menu.
    RoundFought(u8, u8),
    /// The last enemy fell: how many fell this round, and whether the
    /// leveling gate is now due.
    Victory(u8, bool),
}

/// The first tag in `tags` naming a hostile, undefeated catalog group,
/// resolved to that group.
pub open spec fn spec_first_hostile_tag(world: World, p: Player, tags: Seq<String>) -> Option<NPC>
    decreases tags.len(),
{
    if tags.len() == 0 {
        None
    } else if spec_hostile_undefeated(world, p, tags[0]@) {
        spec_find_npc(world.npcs@, tags[0]@)
    } else {
        spec_first_hostile_tag(world, p, tags.drop_first())
    }
}

proof fn lemma_first_hostile_tag_skip(world: World, p: Player, tags: Seq<String>, i: int)
    requires
        0 <= i <= tags.len(),
        forall|j: int| 0 <= j < i ==> !spec_hostile_undefeated(world, p, (#[trigger] tags[j])@),
    ensures
        spec_first_hostile_tag(world, p, tags) == spec_first_hostile_tag(world, p, tags.skip(i)),
    decreases i,
{
    if i > 0 {
        lemma_first_hostile_tag_skip(world, p, tags, i - 1);
        assert(tags.skip(i - 1)[0] == tags[i - 1]);
        assert(tags.skip(i - 1).drop_first() =~= tags.skip(i));
    } else {
        assert(tags.skip(0) =~= tags);
    }
}

/// The hostile group an attack at the player's location would face.
pub open spec fn spec_attack_target(world: World, p: Player) -> Option<NPC> {
    match spec_current_location(world, p) {
        Some(l) => spec_first_hostile_tag(world, p, l.content.npcs@),
        None => None,
    }
}

impl Player {
    /// The first undefeated hostile group at the current location.
    fn find_first_hostile<'a>(&self, world: &'a World) -> (r: Option<&'a NPC>)
        ensures
            r matches Some(n) ==> spec_attack_target(*world, *self) == Some(*n),
            r is None ==> spec_attack_target(*world, *self) is None,
    {
        let location_tag = match &self.current_location {
            Some(t) => t,
            None => {
                return None;
            },
        };
        let location = match find_location(world, location_tag.as_str()) {
            Some(l) => l,
            None => {
                return None;
            },
        };
        let n = location.content.npcs.len();
        let mut i: usize = 0;
        while i < n
            invariant
                n == location.content.npcs@.len(),
                0 <= i <= n,
                spec_current_location(*world, *self) == Some(*location),
                forall|j: int|
                    0 <= j < i ==> !spec_hostile_undefeated(
                        *world,
                        *self,
                        (#[trigger] location.content.npcs@[j])@,
                    ),
            decreases n - i,
        {
            let npc_tag = &location.content.npcs[i];
            match find_npc(world, npc_tag.as_str()) {
                Some(npc) => {
                    if npc.attitude == Attitude::Hostile && !names_has(
                        &self.defeated_npcs,
                        npc.base.tag.as_str(),
                    ) {
                        proof {
                            lemma_first_hostile_tag_skip(
                                *world,
                                *self,
                                location.content.npcs@,
                                i as int,
                            );
                            assert(location.content.npcs@.skip(i as int)[0]
                                == location.content.npcs@[i as int]);
                        }
                        return Some(npc);
                    }
                },
                None => {},
            }
            i += 1;
        }
        proof {
            lemma_first_hostile_tag_skip(*world, *self, location.content.npcs@, n as int);
            assert(location.content.npcs@.skip(n as int).len() == 0);
        }
        None
    }

    /// Resolves one attack action. While the leveling gate is due,
    /// nothing else runs. With no undefeated hostiles here there is
    /// nothing to attack. The menu actions `2`, `3` and `4` flee, stub
    /// item use and ask for status; `continuar` or `1` resume a paused
    /// combat; anything else opens combat against the group's full
    /// count. One round is fought per call: on victory the group joins
    /// the defeated set and, unless it is vermin, the encounter counts
    /// toward the leveling gate; otherwise the remaining count persists
    /// for the menu.
    pub fn execute_attack<D: DiceRoller>(&mut self, world: &World, target: &str, dice: &mut D) -> (r:
        AttackOutcome)
        requires
            forall|i: int|
                0 <= i < old(self).characters@.len() ==> (#[trigger] old(self).characters@[i]).wf(),
        ensures
            old(self).encounters_won >= 10 ==> r is LevelUpPending && *final(self) == *old(self),
            old(self).encounters_won < 10 && spec_attack_target(*world, *old(self)) is None ==> r
                is NoEnemies && *final(self) == (Player {
                current_combat_enemies: None,
                ..*old(self)
            }),
            old(self).encounters_won < 10 ==> (spec_attack_target(*world, *old(self)) matches Some(
                g,
            ) ==> {
                &&& target@ == "2"@ ==> r is Fled && *final(self) == (Player {
                    current_combat_enemies: None,
                    combat_round: 0u32,
                    ..*old(self)
                })
                &&& target@ != "2"@ && target@ == "3"@ ==> r is ItemStubbed && *final(self) == *old(self)
                &&& target@ != "2"@ && target@ != "3"@ && target@ == "4"@ ==> r is StatusRequested
                    && *final(self) == *old(self)
                &&& target@ != "2"@ && target@ != "3"@ && target@ != "4"@ ==> ({
                    let continuing = target@ == "continuar"@ || target@ == "1"@;
                    if continuing && old(self).current_combat_enemies is None {
                        r is NoCombatInProgress && *final(self) == *old(self)
                    } else {
                        let initial = if continuing {
                            old(self).current_combat_enemies->Some_0
                        } else {
                            g.count
                        };
                        &&& spec_round_chars(*old(self), *final(self))
                        &&& (spec_party_always_hits(
                            old(self).characters@,
                            initial > old(self).characters@.len(),
                            g.tags@,
                            g.level,
                        ) && spec_armed_alive(old(self).characters@) >= initial ==> r is Victory)
                        &&& (forall|i: int|
                            0 <= i < old(self).characters@.len() ==> (#[trigger] final(self).characters@[i]).wf())
                        &&& (r matches AttackOutcome::RoundFought(d, rem) ==> ({
                            &&& 0 < rem <= initial
                            &&& d == initial - rem
                            &&& d <= spec_armed_alive(old(self).characters@)
                            &&& final(self).combat_round == (if old(self).combat_round
                                == 0xffff_ffffu32 {
                                old(self).combat_round as int
                            } else {
                                old(self).combat_round + 1
                            })
                            &&& (forall|i: int|
                                0 <= i < old(self).characters@.len() ==> old(self).characters@[i].hit_points - (#[trigger] final(self).characters@[i]).hit_points <= spec_attackers_for(
                                    i,
                                    rem as int,
                                    old(self).characters@.len() as int,
                                ))
                            &&& final(self).current_combat_enemies == Some(rem)
                            &&& *final(self) == (Player {
                                characters: final(self).characters,
                                current_combat_enemies: final(self).current_combat_enemies,
                                combat_round: final(self).combat_round,
                                ..*old(self)
                            })
                        }))
                        &&& (r matches AttackOutcome::Victory(d, gate) ==> ({
                            &&& d == initial
                            &&& d <= spec_armed_alive(old(self).characters@)
                            &&& (forall|i: int|
                                0 <= i < old(self).characters@.len() ==> (#[trigger] final(self).characters@[i]).hit_points == old(self).characters@[i].hit_points)
                            &&& final(self).current_combat_enemies is None
                            &&& final(self).combat_round == 0
                            &&& final(self).defeated_npcs@ == old(self).defeated_npcs@.push(
                                g.base.tag,
                            )
                            &&& final(self).encounters_won == old(self).encounters_won + (
                            if g.tags@.contains(NPCTag::Vermin) {
                                0int
                            } else {
                                1int
                            })
                            &&& gate == (final(self).encounters_won >= 10)
                            &&& *final(self) == (Player {
                                characters: final(self).characters,
                                current_combat_enemies: None,
                                combat_round: 0u32,
                                defeated_npcs: final(self).defeated_npcs,
                                encounters_won: final(self).encounters_won,
                                ..*old(self)
                            })
                        }))
                        &&& (r is RoundFought || r is Victory)
                    }
                })
            }),
    {
        if self.encounters_won >= 10 {
            return AttackOutcome::LevelUpPending;
        }
        let hostile = match self.find_first_hostile(world) {
            Some(n) => n,
            None => {
                self.current_combat_enemies = None;
                return AttackOutcome::NoEnemies;
            },
        };
        if str_eq(target, "2") {
            self.current_combat_enemies = None;
            self.combat_round = 0;
            return AttackOutcome::Fled;
        }
        if str_eq(target, "3") {
            return AttackOutcome::ItemStubbed;
        }
        if str_eq(target, "4") {
            return AttackOutcome::StatusRequested;
        }
        let continuing = str_eq(target, "continuar") || str_eq(target, "1");
        let initial: u8 = if continuing {
            match self.current_combat_enemies {
                Some(rem) => rem,
                None => {
                    return AttackOutcome::NoCombatInProgress;
                },
            }
        } else {
            hostile.count
        };
        let mut round = self.combat_round;
        let remaining = self.execute_combat_round(hostile, initial, &mut round, dice);
        self.combat_round = round;
        let defeated = initial - remaining;
        if remaining == 0 {
            self.current_combat_enemies = None;
            self.combat_round = 0;
            self.defeated_npcs.push(hostile.base.tag.clone());
            if !hostile.has_tag(&NPCTag::Vermin) {
                self.encounters_won = self.encounters_won + 1;
            }
            let gate = self.encounters_won >= 10;
            AttackOutcome::Victory(defeated, gate)
        } else {
            self.current_combat_enemies = Some(remaining);
            AttackOutcome::RoundFought(defeated, remaining)
        }
    }
}

/// A character after one won leveling roll: the level grew by exactly
/// one, the maximum by one, and the hit points refilled to it.
pub open spec fn spec_leveled_once(c0: Character, c1: Character) -> bool {
    c1 == (Character {
        level: (c0.level + 1) as u32,
        max_hit_points: (c0.max_hit_points + 1) as u32,
        hit_points: (c0.max_hit_points + 1) as u32,
        ..c0
    })
}

/// What one leveling attempt comes to. The caller retries while the
/// choice is invalid.
#[derive(Debug)]
pub enum LevelUpOutcome {
    /// Nobody is eligible; the counter resets without a level-up.
    NoEligible,
    /// The line named nobody who may level now; nothing changed, ask
    /// again.
    InvalidChoice,
    /// A valid pick was made; whether the roll won the level.
    Resolved(bool),
}

/// Whether nobody can be offered for leveling: every member carries
/// the stored last-leveled name, or the party is empty.
pub open spec fn spec_no_eligible(chars: Seq<Character>, last: Option<String>) -> bool {
    match last {
        Some(l) => forall|i: int| 0 <= i < chars.len() ==> (#[trigger] chars[i]).name@ == l@,
        None => chars.len() == 0,
    }
}

/// Whether a line is refused by the last-leveled rule: it names the
/// member that leveled last while another member, of a different
/// folded name, still stands below level five.
pub open spec fn spec_levelup_blocked(
    chars: Seq<Character>,
    last: Option<String>,
    line: Seq<char>,
) -> bool {
    match last {
        Some(l) => lower_of(trim_of(line)) == lower_of(l@) && (exists|k: int|
            0 <= k < chars.len() && lower_of((#[trigger] chars[k]).name@) != lower_of(
                trim_of(line),
            ) && chars[k].level < 5),
        None => false,
    }
}

/// Whether the read line picks the member at `idx`: the trimmed,
/// folded line equals the member's folded name, no earlier member
/// matches, and the last-leveled rule does not refuse the pick.
pub open spec fn spec_line_selects(
    chars: Seq<Character>,
    last: Option<String>,
    line: Seq<char>,
    idx: int,
) -> bool {
    &&& 0 <= idx < chars.len()
    &&& lower_of(chars[idx].name@) == lower_of(trim_of(line))
    &&& (forall|j: int|
        0 <= j < idx ==> lower_of((#[trigger] chars[j]).name@) != lower_of(trim_of(line)))
    &&& !spec_levelup_blocked(chars, last, line)
}

impl Player {
    /// Whether nobody can be offered for leveling.
    fn no_eligible_members(&self) -> (r: bool)
        ensures
            r == spec_no_eligible(self.characters@, self.leveled_up_last_time),
    {
        let n = self.characters.len();
        let mut any_available = false;
        let mut i: usize = 0;
        while i < n
            invariant
                n == self.characters@.len(),
                0 <= i <= n,
                (match self.leveled_up_last_time {
                    Some(l) => any_available == !(forall|j: int|
                        0 <= j < i ==> (#[trigger] self.characters@[j]).name@ == l@),
                    None => any_available == (i > 0),
                }),
            decreases n - i,
        {
            let available = match &self.leveled_up_last_time {
                Some(last) => !str_eq(self.characters[i].name.as_str(), last.as_str()),
                None => true,
            };
            if available {
                any_available = true;
            }
            i += 1;
        }
        !any_available
    }

    /// Resolves the leveling gate for one read line. With nobody
    /// eligible the counter resets and nothing else changes. A line
    /// refused by the last-leveled rule — it names the member that
    /// leveled last while another still stands below level five — or
    /// one naming no member changes nothing and must be retried. A
    /// valid line rolls one die for exactly the first member whose
    /// folded name the trimmed, folded line equals: that member levels
    /// exactly when the roll beats its level (see
    /// `Character::apply_level_roll`), the last-leveled marker then
    /// points at it, and the counter resets whatever the roll.
    pub fn resolve_level_up_with_line<D: DiceRoller>(&mut self, line: &str, dice: &mut D) -> (r:
        LevelUpOutcome)
        requires
            forall|i: int|
                0 <= i < old(self).characters@.len() ==> (#[trigger] old(self).characters@[i]).wf(),
        ensures
            r is NoEligible <==> spec_no_eligible(
                old(self).characters@,
                old(self).leveled_up_last_time,
            ),
            r is NoEligible ==> *final(self) == (Player { encounters_won: 0u32, ..*old(self) }),
            r is InvalidChoice <==> (!spec_no_eligible(
                old(self).characters@,
                old(self).leveled_up_last_time,
            ) && (spec_levelup_blocked(
                old(self).characters@,
                old(self).leveled_up_last_time,
                line@,
            ) || (forall|j: int|
                0 <= j < old(self).characters@.len() ==> lower_of(
                    (#[trigger] old(self).characters@[j]).name@,
                ) != lower_of(trim_of(line@))))),
            r is InvalidChoice ==> *final(self) == *old(self),
            r matches LevelUpOutcome::Resolved(leveled) ==> (exists|idx: int|
                {
                    &&& spec_line_selects(
                        old(self).characters@,
                        old(self).leveled_up_last_time,
                        line@,
                        idx,
                    )
                    &&& (forall|j: int|
                        0 <= j < old(self).characters@.len() && j != idx ==> #[trigger] final(self).characters@[j] == old(self).characters@[j])
                    &&& (leveled ==> spec_leveled_once(
                        old(self).characters@[idx],
                        final(self).characters@[idx],
                    ) && final(self).leveled_up_last_time == Some(final(self).characters@[idx].name))
                    &&& (!leveled ==> final(self).characters@[idx] == old(self).characters@[idx]
                        && final(self).leveled_up_last_time == old(self).leveled_up_last_time)
                }),
            r is Resolved ==> final(self).encounters_won == 0,
            *final(self) == (Player {
                characters: final(self).characters,
                encounters_won: final(self).encounters_won,
                leveled_up_last_time: final(self).leveled_up_last_time,
                ..*old(self)
            }),
            final(self).characters@.len() == old(self).characters@.len(),
            forall|i: int|
                0 <= i < old(self).characters@.len() ==> (#[trigger] final(self).characters@[i]).wf(),
    {
        if self.no_eligible_members() {
            self.encounters_won = 0;
            return LevelUpOutcome::NoEligible;
        }
        let n = self.characters.len();
        let trimmed = trim_str(line);
        let input_lower = lowercase(trimmed.as_str());

        // The last-leveled member may go again only when every other
        // member already stands at level five or more.
        let can_level_up = match &self.leveled_up_last_time {
            Some(last) => {
                let last_lower = lowercase(last.as_str());
                if input_lower == last_lower {
                    let mut all_others_high = true;
                    let mut k: usize = 0;
                    while k < n
                        invariant
                            n == self.characters@.len(),
                            0 <= k <= n,
                            *self == *old(self),
                            input_lower@ == lower_of(trim_of(line@)),
                            all_others_high == (forall|j: int|
                                0 <= j < k ==> lower_of(
                                    (#[trigger] self.characters@[j]).name@,
                                ) == input_lower@ || self.characters@[j].level >= 5),
                        decreases n - k,
                    {
                        let name_lower = lowercase(self.characters[k].name.as_str());
                        if !(name_lower == input_lower) && self.characters[k].level < 5 {
                            all_others_high = false;
                        }
                        k += 1;
                    }
                    all_others_high
                } else {
                    true
                }
            },
            None => true,
        };
        if !can_level_up {
            return LevelUpOutcome::InvalidChoice;
        }

        let mut sel: Option<usize> = None;
        let mut k2: usize = 0;
        while k2 < n
            invariant
                n == self.characters@.len(),
                0 <= k2 <= n,
                *self == *old(self),
                input_lower@ == lower_of(trim_of(line@)),
                sel matches Some(s) ==> 0 <= s < n && lower_of(self.characters@[s as int].name@)
                    == input_lower@ && (forall|j: int|
                    0 <= j < s ==> lower_of((#[trigger] self.characters@[j]).name@)
                        != input_lower@),
                sel is None ==> (forall|j: int|
                    0 <= j < k2 ==> lower_of((#[trigger] self.characters@[j]).name@)
                        != input_lower@),
            decreases n - k2,
        {
            if sel.is_none() {
                let name_lower = lowercase(self.characters[k2].name.as_str());
                if name_lower == input_lower {
                    sel = Some(k2);
                }
            }
            k2 += 1;
        }
        match sel {
            Some(idx) => {
                let level_roll = dice.roll_1d6();
                let leveled = self.characters[idx].apply_level_roll(level_roll);
                if leveled {
                    let chosen_name = self.characters[idx].name.clone();
                    self.leveled_up_last_time = Some(chosen_name);
                }
                self.encounters_won = 0;
                LevelUpOutcome::Resolved(leveled)
            },
            None => LevelUpOutcome::InvalidChoice,
        }
    }

    /// One pass at the leveling gate: when nobody is eligible the
    /// counter resets at once and nothing is read; otherwise one line
    /// is read and resolved as `resolve_level_up_with_line` says for
    /// that line. Whatever line came back: an invalid choice changes
    /// nothing; any other outcome resets the counter; at most one
    /// member changes, only by gaining exactly one level with refilled
    /// hit points; and the member that leveled was allowed to — if it
    /// carries the last-leveled name, every differently named member
    /// already stood at level five or more.
    pub fn handle_level_up<R: InputReader, D: DiceRoller>(
        &mut self,
        input_reader: &mut R,
        dice: &mut D,
    ) -> (r: LevelUpOutcome)
        requires
            forall|i: int|
                0 <= i < old(self).characters@.len() ==> (#[trigger] old(self).characters@[i]).wf(),
        ensures
            r is NoEligible <==> spec_no_eligible(
                old(self).characters@,
                old(self).leveled_up_last_time,
            ),
            r is NoEligible ==> *final(self) == (Player { encounters_won: 0u32, ..*old(self) }),
            r is InvalidChoice ==> *final(self) == *old(self),
            !(r is InvalidChoice) ==> final(self).encounters_won == 0,
            *final(self) == (Player {
                characters: final(self).characters,
                encounters_won: final(self).encounters_won,
                leveled_up_last_time: final(self).leveled_up_last_time,
                ..*old(self)
            }),
            final(self).characters@.len() == old(self).characters@.len(),
            forall|i: int|
                0 <= i < old(self).characters@.len() ==> (#[trigger] final(self).characters@[i]
                    == old(self).characters@[i] || spec_leveled_once(
                    old(self).characters@[i],
                    final(self).characters@[i],
                )),
            forall|i: int, j: int|
                0 <= i < j < old(self).characters@.len() ==> final(self).characters@[i] == old(
                    self,
                ).characters@[i] || final(self).characters@[j] == old(self).characters@[j],
            forall|i: int|
                0 <= i < old(self).characters@.len() ==> (#[trigger] final(self).characters@[i]).wf(),
            final(self).leveled_up_last_time == old(self).leveled_up_last_time || (exists|i: int|
                0 <= i < old(self).characters@.len() && spec_leveled_once(
                    old(self).characters@[i],
                    final(self).characters@[i],
                ) && final(self).leveled_up_last_time == Some(final(self).characters@[i].name)),
            r matches LevelUpOutcome::Resolved(leveled) ==> (leveled <==> (exists|i: int|
                0 <= i < old(self).characters@.len() && spec_leveled_once(
                    old(self).characters@[i],
                    (#[trigger] final(self).characters@[i]),
                ))),
            r matches LevelUpOutcome::Resolved(leveled) ==> leveled ==> (exists|idx: int|
                {
                    &&& 0 <= idx < old(self).characters@.len()
                    &&& spec_leveled_once(
                        old(self).characters@[idx],
                        final(self).characters@[idx],
                    )
                    &&& ((old(self).leveled_up_last_time matches Some(l) && lower_of(
                        old(self).characters@[idx].name@,
                    ) == lower_of(l@)) ==> (forall|k: int|
                        0 <= k < old(self).characters@.len() && lower_of(
                            (#[trigger] old(self).characters@[k]).name@,
                        ) != lower_of(old(self).characters@[idx].name@) ==> old(
                            self,
                        ).characters@[k].level >= 5))
                }),
    {
        if self.no_eligible_members() {
            self.encounters_won = 0;
            return LevelUpOutcome::NoEligible;
        }
        let line = input_reader.read_line();
        self.resolve_level_up_with_line(line.as_str(), dice)
    }
}

/// What an equip request comes to. Only `Equipped` changes any state.
#[derive(Debug)]
pub enum EquipOutcome {
    /// No words were given; the caller should explain the command.
    NoArgs,
    /// The named character is not in the party.
    NoSuchCharacter,
    /// The slot word names no equipment kind.
    InvalidSlot,
    /// No inventory item fits the requested slot kind.
    NoMatchingEquipment,
    /// The item was equipped; anything displaced went back to the
    /// inventory.
    Equipped,
}

/// What an unequip request comes to. Only `Unequipped` changes state.
#[derive(Debug)]
pub enum UnequipOutcome {
    /// No words were given; the caller should explain the command.
    NoArgs,
    /// The named character is not in the party.
    NoSuchCharacter,
    /// The slot word names no equipment kind.
    InvalidSlot,
    /// The requested slot is already empty.
    SlotEmpty,
    /// The slot's content went back to the inventory.
    Unequipped,
}

/// Whether `et` is of the same slot kind as the marker `slot`,
/// ignoring weapon and armor weight subtypes.
pub open spec fn spec_kind_matches(et: EquipmentType, slot: EquipmentType) -> bool {
    match slot {
        EquipmentType::Weapon(_) => et matches EquipmentType::Weapon(_),
        EquipmentType::Shield => et is Shield,
        EquipmentType::Armor(_) => et matches EquipmentType::Armor(_),
        EquipmentType::Bow => et is Bow,
        EquipmentType::Basic => et is Basic,
    }
}

/// Whether an inventory item can fill the requested slot kind.
pub open spec fn spec_item_matches_slot(it: Item, slot: EquipmentType) -> bool {
    it.is_equipment && (it.equipment_type matches Some(et) && spec_kind_matches(et, slot))
}

/// The slot kind a command word asks for, in Spanish or English.
pub open spec fn spec_slot_of_word(w: Seq<char>) -> Option<EquipmentType> {
    let lw = lower_of(w);
    if lw == "arma"@ || lw == "weapon"@ {
        Some(EquipmentType::Weapon(crate::character::WeaponType::Medium))
    } else if lw == "escudo"@ || lw == "shield"@ {
        Some(EquipmentType::Shield)
    } else if lw == "armadura"@ || lw == "armor"@ {
        Some(EquipmentType::Armor(crate::character::ArmorType::Light))
    } else {
        None
    }
}

/// The character after `eq` lands in the slot its type calls for.
pub open spec fn spec_equipped_char(c: Character, eq: Equipment) -> Character {
    match eq.equipment_type {
        EquipmentType::Weapon(_) => Character { weapon: Some(eq), ..c },
        EquipmentType::Shield => Character { shield: Some(eq), ..c },
        EquipmentType::Armor(_) => Character { armor: Some(eq), ..c },
        EquipmentType::Bow => Character { bow: Some(eq), ..c },
        EquipmentType::Basic => c,
    }
}

/// What `eq` would displace from the slot its type calls for.
pub open spec fn spec_equip_prev(c: Character, eq: Equipment) -> Option<Equipment> {
    match eq.equipment_type {
        EquipmentType::Weapon(_) => c.weapon,
        EquipmentType::Shield => c.shield,
        EquipmentType::Armor(_) => c.armor,
        EquipmentType::Bow => c.bow,
        EquipmentType::Basic => None,
    }
}

/// The slot content the marker `slot` names.
pub open spec fn spec_slot_content(c: Character, slot: EquipmentType) -> Option<Equipment> {
    match slot {
        EquipmentType::Weapon(_) => c.weapon,
        EquipmentType::Shield => c.shield,
        EquipmentType::Armor(_) => c.armor,
        EquipmentType::Bow => c.bow,
        EquipmentType::Basic => None,
    }
}

/// Whether the party selection of an equip or unequip command fails:
/// with one word the first member is meant (there must be one); with
/// more, the first word must name a member, case-insensitively.
pub open spec fn spec_selection_fails(chars: Seq<Character>, args: Seq<String>) -> bool {
    if args.len() == 1 {
        chars.len() == 0
    } else {
        forall|i: int| 0 <= i < chars.len() ==> lower_of((#[trigger] chars[i]).name@) != lower_of(args[0]@)
    }
}

/// Whether the command words pick the member at `ci`: with one word
/// the first member, with more the first member whose folded name
/// equals the folded first word.
pub open spec fn spec_selects_member(chars: Seq<Character>, args: Seq<String>, ci: int) -> bool {
    &&& 0 <= ci < chars.len()
    &&& (args.len() == 1 ==> ci == 0)
    &&& (args.len() >= 2 ==> lower_of(chars[ci].name@) == lower_of(args[0]@) && (forall|j: int|
        0 <= j < ci ==> lower_of((#[trigger] chars[j]).name@) != lower_of(args[0]@)))
}

/// Whether a freshly unequipped piece, put back as an item, looks
/// right: tagged and described by the equipment's name, visible,
/// equipable, of the same equipment type.
pub open spec fn spec_item_from_equipment(it: Item, eq: Equipment) -> bool {
    &&& it.base.tag@ == eq.name@
    &&& it.base.description@ == eq.name@
    &&& it.base.visible
    &&& !it.is_dropped
    &&& it.is_equipment
    &&& it.equipment_type == Some(eq.equipment_type)
}

/// Maps a command word to the slot kind it asks for.
fn slot_of_word(w: &str) -> (r: Option<EquipmentType>)
    ensures
        r == spec_slot_of_word(w@),
{
    let lw = lowercase(w);
    if str_eq(lw.as_str(), "arma") || str_eq(lw.as_str(), "weapon") {
        Some(EquipmentType::Weapon(crate::character::WeaponType::Medium))
    } else if str_eq(lw.as_str(), "escudo") || str_eq(lw.as_str(), "shield") {
        Some(EquipmentType::Shield)
    } else if str_eq(lw.as_str(), "armadura") || str_eq(lw.as_str(), "armor") {
        Some(EquipmentType::Armor(crate::character::ArmorType::Light))
    } else {
        None
    }
}

/// Whether `et` fills the same slot as the marker `slot`.
fn kind_matches(et: &EquipmentType, slot: &EquipmentType) -> (r: bool)
    ensures
        r == spec_kind_matches(*et, *slot),
{
    match slot {
        EquipmentType::Weapon(_) => matches!(et, EquipmentType::Weapon(_)),
        EquipmentType::Shield => matches!(et, EquipmentType::Shield),
        EquipmentType::Armor(_) => matches!(et, EquipmentType::Armor(_)),
        EquipmentType::Bow => matches!(et, EquipmentType::Bow),
        EquipmentType::Basic => matches!(et, EquipmentType::Basic),
    }
}

impl Player {
    /// Resolves the character index an equip or unequip command names,
    /// and the word that names the slot.
    fn resolve_selection<'a>(&self, args: &'a Vec<String>) -> (r: Option<(usize, &'a String)>)
        requires
            args@.len() >= 1,
        ensures
            r is None <==> spec_selection_fails(self.characters@, args@),
            r matches Some(sel) ==> ({
                &&& spec_selects_member(self.characters@, args@, sel.0 as int)
                &&& (args@.len() == 1 ==> sel.1 == args@[0])
                &&& (args@.len() >= 2 ==> sel.1 == args@[1])
            }),
    {
        if args.len() == 1 {
            if self.characters.len() == 0 {
                return None;
            }
            return Some((0, &args[0]));
        }
        let target_lower = lowercase(args[0].as_str());
        let n = self.characters.len();
        let mut sel: Option<usize> = None;
        let mut i: usize = 0;
        while i < n
            invariant
                n == self.characters@.len(),
                0 <= i <= n,
                target_lower@ == lower_of(args@[0]@),
                sel matches Some(s) ==> 0 <= s < i && lower_of(self.characters@[s as int].name@)
                    == lower_of(args@[0]@) && (forall|j: int|
                    0 <= j < s ==> lower_of((#[trigger] self.characters@[j]).name@) != lower_of(
                        args@[0]@,
                    )),
                sel is None ==> (forall|j: int|
                    0 <= j < i ==> lower_of((#[trigger] self.characters@[j]).name@) != lower_of(
                        args@[0]@,
                    )),
            decreases n - i,
        {
            if sel.is_none() {
                let name_lower = lowercase(self.characters[i].name.as_str());
                if name_lower == target_lower {
                    sel = Some(i);
                }
            }
            i += 1;
        }
        match sel {
            Some(s) => Some((s, &args[1])),
            None => None,
        }
    }

    /// Equips the first inventory item that fits the requested slot
    /// kind — weapon, shield or armor, matched by kind rather than by
    /// weight subtype — on the named character, or on the first member
    /// when no name is given. Whatever the slot held goes back to the
    /// inventory. With no matching item, nothing changes.
    pub fn execute_equip(&mut self, args: &Vec<String>) -> (r: EquipOutcome)
        ensures
            args@.len() == 0 ==> r is NoArgs,
            !(r is Equipped) ==> *final(self) == *old(self),
            args@.len() >= 1 ==> (r is NoSuchCharacter <==> spec_selection_fails(
                old(self).characters@,
                args@,
            )),
            args@.len() >= 1 && !spec_selection_fails(old(self).characters@, args@) ==> ({
                let slot_word = if args@.len() == 1 {
                    args@[0]
                } else {
                    args@[1]
                };
                match spec_slot_of_word(slot_word@) {
                    None => r is InvalidSlot,
                    Some(slot) => {
                        &&& ((forall|k: int|
                            0 <= k < old(self).inventory@.len() ==> !spec_item_matches_slot(
                                #[trigger] old(self).inventory@[k],
                                slot,
                            )) <==> r is NoMatchingEquipment)
                        &&& (r is Equipped ==> exists|ci: int, ii: int|
                            {
                                &&& spec_selects_member(old(self).characters@, args@, ci)
                                &&& 0 <= ii < old(self).inventory@.len()
                                &&& spec_item_matches_slot(old(self).inventory@[ii], slot)
                                &&& (forall|j: int|
                                    0 <= j < ii ==> !spec_item_matches_slot(
                                        #[trigger] old(self).inventory@[j],
                                        slot,
                                    ))
                                &&& ({
                                    let it = old(self).inventory@[ii];
                                    let eq = (Equipment {
                                        name: it.base.description,
                                        equipment_type: it.equipment_type->Some_0,
                                    });
                                    &&& final(self).characters@ == old(self).characters@.update(
                                        ci,
                                        spec_equipped_char(old(self).characters@[ci], eq),
                                    )
                                    &&& (match spec_equip_prev(old(self).characters@[ci], eq) {
                                        None => final(self).inventory@ == old(self).inventory@.remove(ii),
                                        Some(prev) => final(self).inventory@.len() == old(self).inventory@.len() && final(self).inventory@.drop_last()
                                            == old(self).inventory@.remove(ii)
                                            && spec_item_from_equipment(
                                            final(self).inventory@.last(),
                                            prev,
                                        ),
                                    })
                                    &&& *final(self) == (Player {
                                        characters: final(self).characters,
                                        inventory: final(self).inventory,
                                        ..*old(self)
                                    })
                                })
                            })
                        &&& (r is Equipped || r is NoMatchingEquipment)
                    },
                }
            }),
    {
        if args.len() == 0 {
            return EquipOutcome::NoArgs;
        }
        let (character_index, slot_word) = match self.resolve_selection(args) {
            Some(sel) => sel,
            None => {
                return EquipOutcome::NoSuchCharacter;
            },
        };
        let slot = match slot_of_word(slot_word.as_str()) {
            Some(s) => s,
            None => {
                return EquipOutcome::InvalidSlot;
            },
        };
        let m = self.inventory.len();
        let mut found: Option<usize> = None;
        let mut k: usize = 0;
        while k < m
            invariant
                m == self.inventory@.len(),
                0 <= k <= m,
                *self == *old(self),
                found matches Some(f) ==> 0 <= f < m && spec_item_matches_slot(
                    self.inventory@[f as int],
                    slot,
                ) && (forall|j: int|
                    0 <= j < f ==> !spec_item_matches_slot(#[trigger] self.inventory@[j], slot)),
                found is None ==> (forall|j: int|
                    0 <= j < k ==> !spec_item_matches_slot(#[trigger] self.inventory@[j], slot)),
            decreases m - k,
        {
            if found.is_none() && self.inventory[k].is_equipment {
                match &self.inventory[k].equipment_type {
                    Some(et) => {
                        if kind_matches(et, &slot) {
                            found = Some(k);
                        }
                    },
                    None => {},
                }
            }
            k += 1;
        }
        let item_index = match found {
            Some(f) => f,
            None => {
                return EquipOutcome::NoMatchingEquipment;
            },
        };
        let item = self.inventory.remove(item_index);
        let equipment = match item.to_equipment() {
            Some(e) => e,
            None => unreached(),
        };
        let ghost geq = equipment;
        let ghost gc0 = self.characters@[character_index as int];
        match self.characters[character_index].equip(equipment) {
            Some(unequipped) => {
                self.inventory.push(Item::from_equipment(unequipped));
                proof {
                    assert(self.inventory@.drop_last() =~= old(self).inventory@.remove(
                        item_index as int,
                    ));
                }
            },
            None => {},
        }
        proof {
            assert(self.characters@ =~= old(self).characters@.update(
                character_index as int,
                spec_equipped_char(gc0, geq),
            ));
        }
        EquipOutcome::Equipped
    }

    /// Empties the requested slot — weapon, shield or armor — of the
    /// named character, or of the first member when no name is given,
    /// and puts its content back into the inventory as an item. An
    /// already empty slot leaves everything unchanged.
    pub fn execute_unequip(&mut self, args: &Vec<String>) -> (r: UnequipOutcome)
        ensures
            args@.len() == 0 ==> r is NoArgs,
            !(r is Unequipped) ==> *final(self) == *old(self),
            args@.len() >= 1 ==> (r is NoSuchCharacter <==> spec_selection_fails(
                old(self).characters@,
                args@,
            )),
            args@.len() >= 1 && !spec_selection_fails(old(self).characters@, args@) ==> ({
                let slot_word = if args@.len() == 1 {
                    args@[0]
                } else {
                    args@[1]
                };
                match spec_slot_of_word(slot_word@) {
                    None => r is InvalidSlot,
                    Some(slot) => {
                        &&& (r is SlotEmpty || r is Unequipped)
                        &&& (r is SlotEmpty ==> exists|ci: int|
                            {
                                &&& spec_selects_member(old(self).characters@, args@, ci)
                                &&& spec_slot_content(old(self).characters@[ci], slot) is None
                            })
                        &&& (r is Unequipped ==> exists|ci: int|
                            {
                                &&& spec_selects_member(old(self).characters@, args@, ci)
                                &&& (spec_slot_content(old(self).characters@[ci], slot) matches Some(
                                prev) && {
                                    &&& final(self).characters@ == old(self).characters@.update(
                                        ci,
                                        spec_unequipped_char(old(self).characters@[ci], slot),
                                    )
                                    &&& final(self).inventory@.len() == old(self).inventory@.len() + 1
                                    &&& final(self).inventory@.drop_last() == old(self).inventory@
                                    &&& spec_item_from_equipment(final(self).inventory@.last(), prev)
                                    &&& *final(self) == (Player {
                                        characters: final(self).characters,
                                        inventory: final(self).inventory,
                                        ..*old(self)
                                    })
                                })
                            })
                    },
                }
            }),
    {
        if args.len() == 0 {
            return UnequipOutcome::NoArgs;
        }
        let (character_index, slot_word) = match self.resolve_selection(args) {
            Some(sel) => sel,
            None => {
                return UnequipOutcome::NoSuchCharacter;
            },
        };
        let slot = match slot_of_word(slot_word.as_str()) {
            Some(s) => s,
            None => {
                return UnequipOutcome::InvalidSlot;
            },
        };
        let occupied: bool = {
            let c = &self.characters[character_index];
            match slot {
                EquipmentType::Weapon(_) => c.weapon.is_some(),
                EquipmentType::Shield => c.shield.is_some(),
                EquipmentType::Armor(_) => c.armor.is_some(),
                EquipmentType::Bow => c.bow.is_some(),
                EquipmentType::Basic => false,
            }
        };
        if !occupied {
            return UnequipOutcome::SlotEmpty;
        }
        let ghost gc0 = self.characters@[character_index as int];
        match self.characters[character_index].unequip(slot) {
            Some(equipment) => {
                self.inventory.push(Item::from_equipment(equipment));
                proof {
                    assert(self.inventory@.drop_last() =~= old(self).inventory@);
                    assert(self.characters@ =~= old(self).characters@.update(
                        character_index as int,
                        spec_unequipped_char(gc0, slot),
                    ));
                }
                UnequipOutcome::Unequipped
            },
            None => unreached(),
        }
    }

    /// Enrolls a freshly parsed character, up to a party of three.
    pub fn execute_new(&mut self, words: &Vec<String>) -> (r: Result<(), String>)
        ensures
            old(self).characters@.len() >= 3 ==> (r matches Err(e) && e@ == "Ya tienes el máximo de personajes permitidos (3)."@) && *final(self) == *old(self),
            r is Err ==> *final(self) == *old(self),
            r is Ok ==> ({
                &&& old(self).characters@.len() < 3
                &&& final(self).characters@.len() == old(self).characters@.len() + 1
                &&& final(self).characters@.drop_last() == old(self).characters@
                &&& final(self).characters@.last().name@ == words@[0]@
                &&& final(self).characters@.last().level == 1
                &&& final(self).characters@.last().wf()
                &&& *final(self) == (Player { characters: final(self).characters, ..*old(self) })
            }),
            old(self).characters@.len() < 3 ==> (r is Ok <==> (words@.len() == 2 && (lower_of(
                words@[1]@,
            ) == "guerrero"@ || lower_of(words@[1]@) == "mago"@ || lower_of(words@[1]@)
                == "picaro"@) && trim_of(words@[0]@).len() != 0 && !(exists|i: int|
                0 <= i < old(self).characters@.len() && (#[trigger] old(self).characters@[i]).name@ == words@[0]@))),
            old(self).characters@.len() < 3 ==> ({
                let class_ok = lower_of(words@[1]@) == "guerrero"@ || lower_of(words@[1]@)
                    == "mago"@ || lower_of(words@[1]@) == "picaro"@;
                &&& (words@.len() != 2 ==> (r matches Err(e) && e@ == "Formato incorrecto. Uso: nuevo <nombre> <clase>"@))
                &&& (words@.len() == 2 && !class_ok ==> (r matches Err(e) && e@ == "Clase no válida. Clases disponibles: GUERRERO, MAGO, PICARO"@))
                &&& (words@.len() == 2 && class_ok && trim_of(words@[0]@).len() == 0 ==> (r matches Err(e)
                    && e@ == "El nombre no puede estar vacío"@))
                &&& (words@.len() == 2 && class_ok && trim_of(words@[0]@).len() != 0 && (exists|i: int|
                    0 <= i < old(self).characters@.len() && (#[trigger] old(
                        self,
                    ).characters@[i]).name@ == words@[0]@) ==> (r matches Err(e)
                    && e@ == "Ya existe un personaje con el nombre: "@ + words@[0]@))
            }),
    {
        if self.characters.len() >= 3 {
            return Err(String::from_str("Ya tienes el máximo de personajes permitidos (3)."));
        }
        let n = self.characters.len();
        let mut existing_names: Vec<String> = Vec::new();
        let mut i: usize = 0;
        while i < n
            invariant
                n == self.characters@.len(),
                0 <= i <= n,
                *self == *old(self),
                existing_names@.len() == i,
                forall|j: int|
                    0 <= j < i ==> existing_names@[j] == (#[trigger] self.characters@[j]).name,
            decreases n - i,
        {
            existing_names.push(self.characters[i].name.clone());
            i += 1;
        }
        proof {
            if names_contain(existing_names@, words@[0]@) {
                let j = choose|j: int|
                    0 <= j < existing_names@.len() && existing_names@[j]@ == words@[0]@;
                assert(old(self).characters@[j].name@ == words@[0]@);
            }
            if exists|j: int|
                0 <= j < old(self).characters@.len() && (#[trigger] old(self).characters@[j]).name@ == words@[0]@ {
                let j = choose|j: int|
                    0 <= j < old(self).characters@.len() && (#[trigger] old(self).characters@[j]).name@ == words@[0]@;
                assert(existing_names@[j]@ == words@[0]@);
            }
        }
        match crate::character::parse_new_character(words, &existing_names) {
            Ok(character) => {
                self.characters.push(character);
                proof {
                    assert(self.characters@.drop_last() =~= old(self).characters@);
                }
                Ok(())
            },
            Err(e) => Err(e),
        }
    }
}

/// The tags of the items of `items` this player can see lying here:
/// visible or discovered, not picked up, not recorded as dropped
/// somewhere.
pub open spec fn spec_visible_item_tags(items: Seq<Item>, p: Player) -> Seq<Seq<char>>
    decreases items.len(),
{
    if items.len() == 0 {
        Seq::empty()
    } else {
        let prefix = spec_visible_item_tags(items.drop_last(), p);
        let it = items.last();
        if (it.base.visible || names_contain(p.discovered_items@, it.base.tag@)) && !names_contain(
            p.picked_items@,
            it.base.tag@,
        ) && dropped_lookup(p.dropped_items@, it.base.tag@) is None {
            prefix.push(it.base.tag@)
        } else {
            prefix
        }
    }
}

/// The tags recorded as dropped at the location `cur`, in order.
pub open spec fn spec_dropped_tags_at(m: Seq<(String, String)>, cur: Seq<char>) -> Seq<Seq<char>>
    decreases m.len(),
{
    if m.len() == 0 {
        Seq::empty()
    } else {
        let prefix = spec_dropped_tags_at(m.drop_last(), cur);
        if m.last().1@ == cur {
            prefix.push(m.last().0@)
        } else {
            prefix
        }
    }
}

/// The tags of `tags` that resolve to a visible catalog group.
pub open spec fn spec_visible_npc_tags(world: World, tags: Seq<String>) -> Seq<Seq<char>>
    decreases tags.len(),
{
    if tags.len() == 0 {
        Seq::empty()
    } else {
        let prefix = spec_visible_npc_tags(world, tags.drop_last());
        match spec_find_npc(world.npcs@, tags.last()@) {
            Some(npc) => if npc.base.visible {
                prefix.push(npc.base.tag@)
            } else {
                prefix
            },
            None => prefix,
        }
    }
}

/// Whether a member of `chars` has `it` equipped: the slot the item's
/// type calls for holds equipment named by the item's description.
pub open spec fn spec_item_equipped(chars: Seq<Character>, it: Item) -> bool {
    it.is_equipment && (it.equipment_type matches Some(et) && (exists|i: int|
        0 <= i < chars.len() && (match spec_slot_content(#[trigger] chars[i], et) {
            Some(w) => w.name@ == it.base.description@,
            None => false,
        })))
}

impl Player {
    /// The tags of the items lying in sight at the current location:
    /// visible or discovered, not picked up and not dropped elsewhere.
    pub fn visible_items_here(&self, world: &World) -> (r: Vec<String>)
        ensures
            name_views(r@) == (match spec_current_location(*world, *self) {
                Some(l) => spec_visible_item_tags(l.content.items@, *self),
                None => Seq::<Seq<char>>::empty(),
            }),
    {
        let mut out: Vec<String> = Vec::new();
        let location_tag = match &self.current_location {
            Some(t) => t,
            None => {
                return out;
            },
        };
        let location = match find_location(world, location_tag.as_str()) {
            Some(l) => l,
            None => {
                return out;
            },
        };
        let n = location.content.items.len();
        let mut i: usize = 0;
        while i < n
            invariant
                n == location.content.items@.len(),
                0 <= i <= n,
                spec_current_location(*world, *self) == Some(*location),
                name_views(out@) == spec_visible_item_tags(
                    location.content.items@.subrange(0, i as int),
                    *self,
                ),
            decreases n - i,
        {
            proof {
                assert(location.content.items@.subrange(0, i + 1 as int).drop_last()
                    =~= location.content.items@.subrange(0, i as int));
                assert(location.content.items@.subrange(0, i + 1 as int).last()
                    == location.content.items@[i as int]);
            }
            let it = &location.content.items[i];
            if (it.base.visible || names_has(&self.discovered_items, it.base.tag.as_str()))
                && !names_has(&self.picked_items, it.base.tag.as_str()) && !self.is_dropped_tag(
                it.base.tag.as_str(),
            ) {
                proof {
                    lemma_name_views_push(out@, it.base.tag);
                }
                out.push(it.base.tag.clone());
            }
            i += 1;
        }
        proof {
            assert(location.content.items@.subrange(0, n as int) =~= location.content.items@);
        }
        out
    }

    /// Whether the dropped-item register holds an entry for `tag`.
    fn is_dropped_tag(&self, tag: &str) -> (r: bool)
        ensures
            r == dropped_lookup(self.dropped_items@, tag@) is Some,
    {
        let n = self.dropped_items.len();
        let mut i: usize = 0;
        while i < n
            invariant
                n == self.dropped_items@.len(),
                0 <= i <= n,
                forall|j: int| 0 <= j < i ==> self.dropped_items@[j].0@ != tag@,
            decreases n - i,
        {
            if str_eq(self.dropped_items[i].0.as_str(), tag) {
                proof {
                    lemma_dropped_lookup_skip(self.dropped_items@, tag@, i as int);
                    assert(self.dropped_items@.skip(i as int)[0] == self.dropped_items@[i as int]);
                }
                return true;
            }
            i += 1;
        }
        proof {
            lemma_dropped_lookup_skip(self.dropped_items@, tag@, n as int);
            assert(self.dropped_items@.skip(n as int).len() == 0);
        }
        false
    }

    /// The tags of the items this player left at the current location.
    pub fn dropped_items_here(&self, world: &World) -> (r: Vec<String>)
        ensures
            name_views(r@) == (match self.current_location {
                Some(t) => spec_dropped_tags_at(self.dropped_items@, t@),
                None => Seq::<Seq<char>>::empty(),
            }),
    {
        let mut out: Vec<String> = Vec::new();
        let location_tag = match &self.current_location {
            Some(t) => t,
            None => {
                return out;
            },
        };
        let n = self.dropped_items.len();
        let mut i: usize = 0;
        while i < n
            invariant
                n == self.dropped_items@.len(),
                0 <= i <= n,
                self.current_location matches Some(t) && t@ == location_tag@,
                name_views(out@) == spec_dropped_tags_at(
                    self.dropped_items@.subrange(0, i as int),
                    location_tag@,
                ),
            decreases n - i,
        {
            proof {
                assert(self.dropped_items@.subrange(0, i + 1 as int).drop_last()
                    =~= self.dropped_items@.subrange(0, i as int));
                assert(self.dropped_items@.subrange(0, i + 1 as int).last()
                    == self.dropped_items@[i as int]);
            }
            if str_eq(self.dropped_items[i].1.as_str(), location_tag.as_str()) {
                proof {
                    lemma_name_views_push(out@, self.dropped_items@[i as int].0);
                }
                let t = self.dropped_items[i].0.clone();
                out.push(t);
            }
            i += 1;
        }
        proof {
            assert(self.dropped_items@.subrange(0, n as int) =~= self.dropped_items@);
        }
        out
    }

    /// The tags of the visible groups standing at the current location.
    pub fn visible_npcs_here(&self, world: &World) -> (r: Vec<String>)
        ensures
            name_views(r@) == (match spec_current_location(*world, *self) {
                Some(l) => spec_visible_npc_tags(*world, l.content.npcs@),
                None => Seq::<Seq<char>>::empty(),
            }),
    {
        let mut out: Vec<String> = Vec::new();
        let location_tag = match &self.current_location {
            Some(t) => t,
            None => {
                return out;
            },
        };
        let location = match find_location(world, location_tag.as_str()) {
            Some(l) => l,
            None => {
                return out;
            },
        };
        let n = location.content.npcs.len();
        let mut i: usize = 0;
        while i < n
            invariant
                n == location.content.npcs@.len(),
                0 <= i <= n,
                spec_current_location(*world, *self) == Some(*location),
                name_views(out@) == spec_visible_npc_tags(
                    *world,
                    location.content.npcs@.subrange(0, i as int),
                ),
            decreases n - i,
        {
            proof {
                assert(location.content.npcs@.subrange(0, i + 1 as int).drop_last()
                    =~= location.content.npcs@.subrange(0, i as int));
                assert(location.content.npcs@.subrange(0, i + 1 as int).last()
                    == location.content.npcs@[i as int]);
            }
            match find_npc(world, location.content.npcs[i].as_str()) {
                Some(npc) => {
                    if npc.base.visible {
                        proof {
                            lemma_name_views_push(out@, npc.base.tag);
                        }
                        out.push(npc.base.tag.clone());
                    }
                },
                None => {},
            }
            i += 1;
        }
        proof {
            assert(location.content.npcs@.subrange(0, n as int) =~= location.content.npcs@);
        }
        out
    }

    /// How many of a group remain to fight: the paused combat count if
    /// one is active, the group's full count otherwise.
    pub fn npc_remaining(&self, npc: &NPC) -> (r: u8)
        ensures
            r == (match self.current_combat_enemies {
                Some(rem) => rem,
                None => npc.count,
            }),
    {
        match self.current_combat_enemies {
            Some(rem) => rem,
            None => npc.count,
        }
    }

    /// Whether some member of the party has this inventory item
    /// equipped, matched by the item's description naming the
    /// equipment in the slot its type calls for.
    pub fn item_is_equipped(&self, item: &Item) -> (r: bool)
        ensures
            r == spec_item_equipped(self.characters@, *item),
    {
        if !item.is_equipment {
            return false;
        }
        let et = match &item.equipment_type {
            Some(et) => *et,
            None => {
                return false;
            },
        };
        let n = self.characters.len();
        let mut i: usize = 0;
        while i < n
            invariant
                n == self.characters@.len(),
                0 <= i <= n,
                item.is_equipment,
                item.equipment_type == Some(et),
                forall|j: int|
                    0 <= j < i ==> (match spec_slot_content(#[trigger] self.characters@[j], et) {
                        Some(w) => w.name@ != item.base.description@,
                        None => true,
                    }),
            decreases n - i,
        {
            let c = &self.characters[i];
            let slot_content: &Option<Equipment> = match et {
                EquipmentType::Weapon(_) => &c.weapon,
                EquipmentType::Shield => &c.shield,
                EquipmentType::Armor(_) => &c.armor,
                EquipmentType::Bow => &c.bow,
                EquipmentType::Basic => &c.weapon,
            };
            match et {
                EquipmentType::Basic => {},
                _ => {
                    match slot_content {
                        Some(w) => {
                            if str_eq(w.name.as_str(), item.base.description.as_str()) {
                                return true;
                            }
                        },
                        None => {},
                    }
                },
            }
            i += 1;
        }
        false
    }
}

proof fn lemma_dropped_lookup_skip(m: Seq<(String, String)>, k: Seq<char>, i: int)
    requires
        0 <= i <= m.len(),
        forall|j: int| 0 <= j < i ==> m[j].0@ != k,
    ensures
        dropped_lookup(m, k) == dropped_lookup(m.skip(i), k),
    decreases i,
{
    if i > 0 {
        lemma_dropped_lookup_skip(m, k, i - 1);
        assert(m.skip(i - 1)[0] == m[i - 1]);
        assert(m.skip(i - 1).drop_first() =~= m.skip(i));
    } else {
        assert(m.skip(0) =~= m);
    }
}

/// The character after the marker `slot` is emptied.
pub open spec fn spec_unequipped_char(c: Character, slot: EquipmentType) -> Character {
    match slot {
        EquipmentType::Weapon(_) => Character { weapon: None, ..c },
        EquipmentType::Shield => Character { shield: None, ..c },
        EquipmentType::Armor(_) => Character { armor: None, ..c },
        EquipmentType::Bow => Character { bow: None, ..c },
        EquipmentType::Basic => c,
    }
}

} // verus!
