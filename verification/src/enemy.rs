//! Encounter-table entries: hostile groups graded by difficulty and
//! recommended level range, with the loot they may leave behind.
use vstd::prelude::*;
use crate::object::{Attitude, NPC, NPCTag};
use crate::text::str_eq;

verus! {

/// One encounter-table entry: a hostile group with a difficulty grade,
/// a recommended level range, a loot table and an experience award.
#[derive(Debug, Clone)]
pub struct Enemy {
    pub base: NPC,
    pub difficulty: u8,
    pub min_level: u8,
    pub max_level: u8,
    pub loot_table: Vec<String>,
    pub experience: u32,
}

impl Enemy {
    /// A hostile group at `location`, graded `difficulty` (clamped to
    /// 1 to 5) for parties between `min_level` and `max_level`
    /// (clamped to 1 to 20, the maximum never below the minimum).
    pub fn new(
        tag: &str,
        description: &str,
        location: &str,
        difficulty: u8,
        min_level: u8,
        max_level: u8,
        experience: u32,
    ) -> (r: Self)
        ensures
            r.base.base.tag@ == tag@,
            r.base.base.description@ == description@,
            r.base.location@ == location@,
            r.base.attitude == Attitude::Hostile,
            r.base.level == (if min_level > 20 {
                20u8
            } else if min_level < 1 {
                1u8
            } else {
                min_level
            }),
            r.base.count == 1,
            r.difficulty == (if difficulty > 5 {
                5u8
            } else if difficulty < 1 {
                1u8
            } else {
                difficulty
            }),
            r.min_level == (if min_level > 20 {
                20u8
            } else if min_level < 1 {
                1u8
            } else {
                min_level
            }),
            r.max_level == ({
                let capped = if max_level > 20 {
                    20u8
                } else {
                    max_level
                };
                if capped < min_level {
                    min_level
                } else {
                    capped
                }
            }),
            r.loot_table@.len() == 0,
            r.experience == experience,
    {
        let base = NPC::new(tag, description, location, true).with_attitude(
            Attitude::Hostile,
        ).with_level(min_level);

        let clamped_difficulty = if difficulty > 5 {
            5
        } else if difficulty < 1 {
            1
        } else {
            difficulty
        };
        let clamped_min = if min_level > 20 {
            20
        } else if min_level < 1 {
            1
        } else {
            min_level
        };
        let capped_max = if max_level > 20 {
            20
        } else {
            max_level
        };
        let clamped_max = if capped_max < min_level {
            min_level
        } else {
            capped_max
        };

        Enemy {
            base,
            difficulty: clamped_difficulty,
            min_level: clamped_min,
            max_level: clamped_max,
            loot_table: Vec::new(),
            experience,
        }
    }

    /// Replaces the loot table by the given item tags.
    pub fn with_loot(self, item_tags: Vec<&str>) -> (r: Self)
        ensures
            r == (Enemy { loot_table: r.loot_table, ..self }),
            r.loot_table@.len() == item_tags@.len(),
            forall|i: int| 0 <= i < item_tags@.len() ==> r.loot_table@[i]@ == item_tags@[i]@,
    {
        let mut loot: Vec<String> = Vec::new();
        let n = item_tags.len();
        let mut i: usize = 0;
        while i < n
            invariant
                n == item_tags@.len(),
                0 <= i <= n,
                loot@.len() == i,
                forall|j: int| 0 <= j < i ==> loot@[j]@ == item_tags@[j]@,
            decreases n - i,
        {
            loot.push(item_tags[i].to_owned());
            i += 1;
        }
        Enemy { loot_table: loot, ..self }
    }

    /// Sets how many individual enemies the group stands for.
    pub fn with_count(self, count: u8) -> (r: Self)
        ensures
            r == (Enemy { base: (NPC { count, ..self.base }), ..self }),
    {
        let base = NPC { count, ..self.base };
        Enemy { base, ..self }
    }

    /// Replaces the group's race and type tags.
    pub fn with_tags(self, tags: Vec<NPCTag>) -> (r: Self)
        ensures
            r == (Enemy { base: (NPC { tags, ..self.base }), ..self }),
    {
        let base = NPC { tags, ..self.base };
        Enemy { base, ..self }
    }
}

/// The enemies of `es` graded exactly `difficulty`, in order.
pub open spec fn enemies_with_difficulty(es: Seq<Enemy>, difficulty: u8) -> Seq<Enemy> {
    es.filter(|e: Enemy| e.difficulty == difficulty)
}

/// The enemies of `es` whose recommended range lies within the given
/// bounds, in order.
pub open spec fn enemies_in_level_range(es: Seq<Enemy>, min_level: u8, max_level: u8) -> Seq<
    Enemy,
> {
    es.filter(|e: Enemy| e.min_level >= min_level && e.max_level <= max_level)
}

/// The enemies of `es` whose home is `location`, in order.
pub open spec fn enemies_at(es: Seq<Enemy>, location: Seq<char>) -> Seq<Enemy> {
    es.filter(|e: Enemy| e.base.location@ == location)
}

proof fn lemma_enemies_with_difficulty_push(es: Seq<Enemy>, difficulty: u8, e: Enemy)
    ensures
        enemies_with_difficulty(es.push(e), difficulty) == if e.difficulty == difficulty {
            enemies_with_difficulty(es, difficulty).push(e)
        } else {
            enemies_with_difficulty(es, difficulty)
        },
{
    broadcast use Seq::lemma_filter_push;

}

proof fn lemma_enemies_in_level_range_push(es: Seq<Enemy>, min_level: u8, max_level: u8, e: Enemy)
    ensures
        enemies_in_level_range(es.push(e), min_level, max_level) == if e.min_level >= min_level
            && e.max_level <= max_level {
            enemies_in_level_range(es, min_level, max_level).push(e)
        } else {
            enemies_in_level_range(es, min_level, max_level)
        },
{
    broadcast use Seq::lemma_filter_push;

}

proof fn lemma_enemies_at_push(es: Seq<Enemy>, location: Seq<char>, e: Enemy)
    ensures
        enemies_at(es.push(e), location) == if e.base.location@ == location {
            enemies_at(es, location).push(e)
        } else {
            enemies_at(es, location)
        },
{
    broadcast use Seq::lemma_filter_push;

}

/// The first encounter-table entry with the given tag.
pub fn get_enemy<'a>(enemies: &'a Vec<Enemy>, tag: &str) -> (r: Option<&'a Enemy>)
    ensures
        r is Some <==> (exists|i: int|
            0 <= i < enemies@.len() && enemies@[i].base.base.tag@ == tag@),
        r matches Some(e) ==> e.base.base.tag@ == tag@ && enemies@.contains(*e),
{
    let n = enemies.len();
    let mut i: usize = 0;
    while i < n
        invariant
            n == enemies@.len(),
            0 <= i <= n,
            forall|j: int| 0 <= j < i ==> enemies@[j].base.base.tag@ != tag@,
        decreases n - i,
    {
        if str_eq(enemies[i].base.base.tag.as_str(), tag) {
            return Some(&enemies[i]);
        }
        i += 1;
    }
    None
}

/// Every entry graded exactly `difficulty`.
pub fn get_enemies_by_difficulty<'a>(enemies: &'a Vec<Enemy>, difficulty: u8) -> (r: Vec<
    &'a Enemy,
>)
    ensures
        r@.len() == enemies_with_difficulty(enemies@, difficulty).len(),
        forall|k: int|
            0 <= k < r@.len() ==> *r@[k] == enemies_with_difficulty(enemies@, difficulty)[k],
{
    let mut out: Vec<&'a Enemy> = Vec::new();
    let n = enemies.len();
    let mut i: usize = 0;
    while i < n
        invariant
            n == enemies@.len(),
            0 <= i <= n,
            out@.len() == enemies_with_difficulty(enemies@.subrange(0, i as int), difficulty).len(),
            forall|k: int|
                0 <= k < out@.len() ==> *out@[k] == enemies_with_difficulty(
                    enemies@.subrange(0, i as int),
                    difficulty,
                )[k],
        decreases n - i,
    {
        proof {
            assert(enemies@.subrange(0, i + 1 as int) =~= enemies@.subrange(0, i as int).push(
                enemies@[i as int],
            ));
            lemma_enemies_with_difficulty_push(
                enemies@.subrange(0, i as int),
                difficulty,
                enemies@[i as int],
            );
        }
        if enemies[i].difficulty == difficulty {
            out.push(&enemies[i]);
        }
        i += 1;
    }
    proof {
        assert(enemies@.subrange(0, n as int) =~= enemies@);
    }
    out
}

/// Every entry whose recommended range lies within the given bounds.
pub fn get_enemies_by_level_range<'a>(enemies: &'a Vec<Enemy>, min_level: u8, max_level: u8) -> (r:
    Vec<&'a Enemy>)
    ensures
        r@.len() == enemies_in_level_range(enemies@, min_level, max_level).len(),
        forall|k: int|
            0 <= k < r@.len() ==> *r@[k] == enemies_in_level_range(
                enemies@,
                min_level,
                max_level,
            )[k],
{
    let mut out: Vec<&'a Enemy> = Vec::new();
    let n = enemies.len();
    let mut i: usize = 0;
    while i < n
        invariant
            n == enemies@.len(),
            0 <= i <= n,
            out@.len() == enemies_in_level_range(
                enemies@.subrange(0, i as int),
                min_level,
                max_level,
            ).len(),
            forall|k: int|
                0 <= k < out@.len() ==> *out@[k] == enemies_in_level_range(
                    enemies@.subrange(0, i as int),
                    min_level,
                    max_level,
                )[k],
        decreases n - i,
    {
        proof {
            assert(enemies@.subrange(0, i + 1 as int) =~= enemies@.subrange(0, i as int).push(
                enemies@[i as int],
            ));
            lemma_enemies_in_level_range_push(
                enemies@.subrange(0, i as int),
                min_level,
                max_level,
                enemies@[i as int],
            );
        }
        if enemies[i].min_level >= min_level && enemies[i].max_level <= max_level {
            out.push(&enemies[i]);
        }
        i += 1;
    }
    proof {
        assert(enemies@.subrange(0, n as int) =~= enemies@);
    }
    out
}

/// Every entry whose home is the given location.
pub fn get_enemies_by_location<'a>(enemies: &'a Vec<Enemy>, location: &str) -> (r: Vec<&'a Enemy>)
    ensures
        r@.len() == enemies_at(enemies@, location@).len(),
        forall|k: int| 0 <= k < r@.len() ==> *r@[k] == enemies_at(enemies@, location@)[k],
{
    let mut out: Vec<&'a Enemy> = Vec::new();
    let n = enemies.len();
    let mut i: usize = 0;
    while i < n
        invariant
            n == enemies@.len(),
            0 <= i <= n,
            out@.len() == enemies_at(enemies@.subrange(0, i as int), location@).len(),
            forall|k: int|
                0 <= k < out@.len() ==> *out@[k] == enemies_at(
                    enemies@.subrange(0, i as int),
                    location@,
                )[k],
        decreases n - i,
    {
        proof {
            assert(enemies@.subrange(0, i + 1 as int) =~= enemies@.subrange(0, i as int).push(
                enemies@[i as int],
            ));
            lemma_enemies_at_push(enemies@.subrange(0, i as int), location@, enemies@[i as int]);
        }
        if str_eq(enemies[i].base.location.as_str(), location) {
            out.push(&enemies[i]);
        }
        i += 1;
    }
    proof {
        assert(enemies@.subrange(0, n as int) =~= enemies@);
    }
    out
}

} // verus!
