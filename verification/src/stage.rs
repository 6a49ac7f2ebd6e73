//! Stages and the biomes they belong to.

use crate::enemy::Enemy;
use crate::enemy_gen::{enemy_ok, generate_enemy, stage_fits};
use crate::rng::gen_range_i32;
use rand_chacha::ChaCha8Rng;
use vstd::prelude::*;

verus! {

#[derive(Debug, Clone, Copy, PartialEq, Eq, Structural)]
pub enum Biome {
    Forest,
    Crypt,
    Volcano,
    Abyss,
    Void,
}

/// Stages come in runs of ten per biome, and the five biomes repeat.
pub open spec fn biome_of(stage: int) -> Biome {
    let k = ((stage - 1) / 10) % 5;
    if k == 0 {
        Biome::Forest
    } else if k == 1 {
        Biome::Crypt
    } else if k == 2 {
        Biome::Volcano
    } else if k == 3 {
        Biome::Abyss
    } else {
        Biome::Void
    }
}

pub open spec fn biome_name(b: Biome) -> Seq<char> {
    match b {
        Biome::Forest => "Haunted Forest"@,
        Biome::Crypt => "Ancient Crypt"@,
        Biome::Volcano => "Molten Cavern"@,
        Biome::Abyss => "The Abyss"@,
        Biome::Void => "The Void"@,
    }
}

impl Biome {
    pub fn from_stage(stage: u32) -> (b: Biome)
        requires
            stage >= 1,
        ensures
            b == biome_of(stage as int),
            1 <= stage <= 10 ==> b == Biome::Forest,
            11 <= stage <= 20 ==> b == Biome::Crypt,
            21 <= stage <= 30 ==> b == Biome::Volcano,
            31 <= stage <= 40 ==> b == Biome::Abyss,
            41 <= stage <= 50 ==> b == Biome::Void,
    {
        proof {
            law_biome_runs(stage as int);
        }
        match ((stage - 1) / 10) % 5 {
            0 => Biome::Forest,
            1 => Biome::Crypt,
            2 => Biome::Volcano,
            3 => Biome::Abyss,
            _ => Biome::Void,
        }
    }

    pub fn name(self) -> (r: &'static str)
        ensures
            r@ == biome_name(self),
    {
        match self {
            Biome::Forest => "Haunted Forest",
            Biome::Crypt => "Ancient Crypt",
            Biome::Volcano => "Molten Cavern",
            Biome::Abyss => "The Abyss",
            Biome::Void => "The Void",
        }
    }
}

pub struct StageConfig {
    pub enemies: Vec<Enemy>,
    pub biome: Biome,
}

/// The most ordinary enemies a stage can hold.
pub open spec fn enemy_cap(stage: int) -> int {
    if stage <= 3 {
        1
    } else if stage <= 10 {
        2
    } else {
        3
    }
}

/// Rolls a stage: every tenth stage is a single boss; other stages hold
/// one to `enemy_cap` ordinary enemies of the stage's biome.
pub fn generate_stage(rng: &mut ChaCha8Rng, stage: u32) -> (c: StageConfig)
    requires
        stage >= 1,
        stage_fits(stage as int),
    ensures
        c.biome == biome_of(stage as int),
        stage % 10 == 0 ==> c.enemies@.len() == 1 && enemy_ok(stage as int, c.biome, true, c.enemies@[0]),
        stage % 10 != 0 ==> 1 <= c.enemies@.len() <= enemy_cap(stage as int) && forall|i: int|
            0 <= i < c.enemies@.len() ==> enemy_ok(stage as int, c.biome, false, #[trigger] c.enemies@[i]),
{
    let biome = Biome::from_stage(stage);
    let is_boss_stage = stage % 10 == 0;
    let mut enemies: Vec<Enemy> = Vec::new();
    if is_boss_stage {
        enemies.push(generate_enemy(rng, stage, biome, true));
    } else {
        let enemy_count: i32 = if stage <= 3 {
            1
        } else if stage <= 10 {
            gen_range_i32(rng, 1, 2)
        } else {
            gen_range_i32(rng, 1, 3)
        };
        let mut k: i32 = 0;
        while k < enemy_count
            invariant
                0 <= k <= enemy_count,
                1 <= enemy_count <= enemy_cap(stage as int),
                stage_fits(stage as int),
                enemies@.len() == k,
                forall|i: int| 0 <= i < enemies@.len() ==> enemy_ok(stage as int, biome, false, #[trigger] enemies@[i]),
            decreases enemy_count - k,
        {
            enemies.push(generate_enemy(rng, stage, biome, false));
            k = k + 1;
        }
    }
    StageConfig { enemies, biome }
}

/// The biomes come round again every fifty stages.
pub proof fn law_biomes_cycle(stage: int)
    requires
        stage >= 1,
    ensures
        biome_of(stage + 50) == biome_of(stage),
{
    assert((stage + 50 - 1) / 10 == (stage - 1) / 10 + 5);
}

/// The biomes come in runs of ten stages in a fixed order: stages 1 to 10
/// are the forest, 11 to 20 the crypt, 21 to 30 the volcano, 31 to 40 the
/// abyss and 41 to 50 the void; then the order starts again.
pub proof fn law_biome_runs(stage: int)
    requires
        stage >= 1,
    ensures
        1 <= stage <= 10 ==> biome_of(stage) == Biome::Forest,
        11 <= stage <= 20 ==> biome_of(stage) == Biome::Crypt,
        21 <= stage <= 30 ==> biome_of(stage) == Biome::Volcano,
        31 <= stage <= 40 ==> biome_of(stage) == Biome::Abyss,
        41 <= stage <= 50 ==> biome_of(stage) == Biome::Void,
        biome_of(stage + 50) == biome_of(stage),
{
    law_biomes_cycle(stage);
}

/// How many enemies a stage holds: every tenth stage a single boss; other
/// stages one enemy up to stage 3, one or two up to stage 10 and one to
/// three after that, all ordinary. `enemies` are those of a stage that
/// `generate_stage` made.
pub proof fn law_stage_enemy_counts(stage: int, biome: Biome, enemies: Seq<Enemy>)
    requires
        stage >= 1,
        stage % 10 == 0 ==> enemies.len() == 1 && enemy_ok(stage, biome, true, enemies[0]),
        stage % 10 != 0 ==> 1 <= enemies.len() <= enemy_cap(stage) && forall|i: int|
            0 <= i < enemies.len() ==> enemy_ok(stage, biome, false, #[trigger] enemies[i]),
    ensures
        stage % 10 == 0 ==> enemies.len() == 1 && enemies[0].is_boss,
        stage % 10 != 0 && stage <= 3 ==> enemies.len() == 1,
        stage % 10 != 0 && 3 < stage <= 10 ==> 1 <= enemies.len() <= 2,
        stage % 10 != 0 && stage > 10 ==> 1 <= enemies.len() <= 3,
        stage % 10 != 0 ==> forall|i: int| 0 <= i < enemies.len() ==> !(#[trigger] enemies[i]).is_boss,
{
}

} // verus!
