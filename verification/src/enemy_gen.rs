//! Rolling enemies for a stage: who they are, how strong, what they can do
//! and which word rule they impose.

use crate::enemy::{Enemy, EnemyAbility, WordConstraint};
use crate::rng::{choose_one, gen_range_i32, gen_range_u8, gen_range_usize, gen_ratio};
use crate::stage::Biome;
use crate::tile::TileEffect;
use rand_chacha::ChaCha8Rng;
use vstd::prelude::*;

verus! {

/// A kind of enemy a biome can field: its name and the sprite it is drawn with.
#[derive(Debug, Clone, Copy, PartialEq, Eq)]
pub struct EnemyTemplate {
    pub name: &'static str,
    pub sprite: &'static str,
}

/// The names and sprites of the enemies of a biome, bosses apart.
pub open spec fn roster(biome: Biome, is_boss: bool) -> Seq<(Seq<char>, Seq<char>)> {
    if is_boss {
        match biome {
            Biome::Forest => seq![("Elder Treant"@, "boss_goblin"@), ("Goblin King"@, "boss_goblin"@)],
            Biome::Crypt => seq![("Lich Lord"@, "boss_goblin"@), ("Death Knight"@, "boss_goblin"@)],
            Biome::Volcano => seq![("Inferno Dragon"@, "boss_goblin"@), ("Molten King"@, "boss_goblin"@)],
            Biome::Abyss => seq![("Demon Lord"@, "boss_goblin"@), ("Shadow Monarch"@, "boss_goblin"@)],
            Biome::Void => seq![("The Unmaker"@, "boss_goblin"@), ("Entropy Incarnate"@, "boss_goblin"@)],
        }
    } else {
        match biome {
            Biome::Forest => seq![
                ("Forest Goblin"@, "goblin"@),
                ("Wild Wolf"@, "wolf"@),
                ("Toxic Slime"@, "slime"@),
                ("Cave Bat"@, "goblin"@),
                ("Thorn Sprite"@, "slime"@),
            ],
            Biome::Crypt => seq![
                ("Skeleton Guard"@, "skeleton"@),
                ("Bone Rattler"@, "skeleton"@),
                ("Phantom"@, "goblin"@),
                ("Crypt Spider"@, "slime"@),
                ("Wraith"@, "skeleton"@),
            ],
            Biome::Volcano => seq![
                ("Fire Imp"@, "goblin"@),
                ("Lava Slime"@, "slime"@),
                ("Magma Golem"@, "skeleton"@),
                ("Ember Wolf"@, "wolf"@),
                ("Flame Dancer"@, "goblin"@),
            ],
            Biome::Abyss => seq![
                ("Shadow Demon"@, "skeleton"@),
                ("Void Walker"@, "goblin"@),
                ("Abyssal Leech"@, "slime"@),
                ("Dark Stalker"@, "wolf"@),
                ("Nightmare"@, "skeleton"@),
            ],
            Biome::Void => seq![
                ("Chaos Spawn"@, "slime"@),
                ("Reality Shredder"@, "skeleton"@),
                ("Entropy Beast"@, "wolf"@),
                ("Null Wraith"@, "goblin"@),
                ("Void Titan"@, "skeleton"@),
            ],
        }
    }
}

pub open spec fn template_view(t: EnemyTemplate) -> (Seq<char>, Seq<char>) {
    (t.name@, t.sprite@)
}

fn template(name: &'static str, sprite: &'static str) -> (t: EnemyTemplate)
    ensures
        t.name@ == name@,
        t.sprite@ == sprite@,
{
    EnemyTemplate { name, sprite }
}

fn templates_for_biome(biome: Biome, is_boss: bool) -> (v: Vec<EnemyTemplate>)
    ensures
        v@.map_values(|t: EnemyTemplate| template_view(t)) == roster(biome, is_boss),
{
    let mut v: Vec<EnemyTemplate> = Vec::new();
    if is_boss {
        match biome {
            Biome::Forest => {
                v.push(template("Elder Treant", "boss_goblin"));
                v.push(template("Goblin King", "boss_goblin"));
            },
            Biome::Crypt => {
                v.push(template("Lich Lord", "boss_goblin"));
                v.push(template("Death Knight", "boss_goblin"));
            },
            Biome::Volcano => {
                v.push(template("Inferno Dragon", "boss_goblin"));
                v.push(template("Molten King", "boss_goblin"));
            },
            Biome::Abyss => {
                v.push(template("Demon Lord", "boss_goblin"));
                v.push(template("Shadow Monarch", "boss_goblin"));
            },
            Biome::Void => {
                v.push(template("The Unmaker", "boss_goblin"));
                v.push(template("Entropy Incarnate", "boss_goblin"));
            },
        }
    } else {
        match biome {
            Biome::Forest => {
                v.push(template("Forest Goblin", "goblin"));
                v.push(template("Wild Wolf", "wolf"));
                v.push(template("Toxic Slime", "slime"));
                v.push(template("Cave Bat", "goblin"));
                v.push(template("Thorn Sprite", "slime"));
            },
            Biome::Crypt => {
                v.push(template("Skeleton Guard", "skeleton"));
                v.push(template("Bone Rattler", "skeleton"));
                v.push(template("Phantom", "goblin"));
                v.push(template("Crypt Spider", "slime"));
                v.push(template("Wraith", "skeleton"));
            },
            Biome::Volcano => {
                v.push(template("Fire Imp", "goblin"));
                v.push(template("Lava Slime", "slime"));
                v.push(template("Magma Golem", "skeleton"));
                v.push(template("Ember Wolf", "wolf"));
                v.push(template("Flame Dancer", "goblin"));
            },
            Biome::Abyss => {
                v.push(template("Shadow Demon", "skeleton"));
                v.push(template("Void Walker", "goblin"));
                v.push(template("Abyssal Leech", "slime"));
                v.push(template("Dark Stalker", "wolf"));
                v.push(template("Nightmare", "skeleton"));
            },
            Biome::Void => {
                v.push(template("Chaos Spawn", "slime"));
                v.push(template("Reality Shredder", "skeleton"));
                v.push(template("Entropy Beast", "wolf"));
                v.push(template("Null Wraith", "goblin"));
                v.push(template("Void Titan", "skeleton"));
            },
        }
    }
    proof {
        assert(v@.map_values(|t: EnemyTemplate| template_view(t)) =~= roster(biome, is_boss));
    }
    v
}


/// How many abilities an enemy may have.
pub open spec fn max_abilities(stage: int, is_boss: bool) -> int {
    if is_boss {
        if stage / 5 + 2 < 4 {
            stage / 5 + 2
        } else {
            4
        }
    } else {
        if stage / 5 < 3 {
            stage / 5
        } else {
            3
        }
    }
}

/// The tile effects a biome's enemies favour, in the order they are tried.
pub open spec fn biome_effects(b: Biome) -> Seq<TileEffect> {
    match b {
        Biome::Forest => seq![TileEffect::Poison, TileEffect::Whirlwind],
        Biome::Crypt => seq![TileEffect::Plague, TileEffect::Broken],
        Biome::Volcano => seq![TileEffect::Spike, TileEffect::Stone],
        Biome::Abyss => seq![TileEffect::Plague, TileEffect::Duplicator, TileEffect::Flipped],
        Biome::Void => seq![TileEffect::Poison, TileEffect::Spike, TileEffect::Plague, TileEffect::Stone],
    }
}

fn effects_for_biome(b: Biome) -> (v: Vec<TileEffect>)
    ensures
        v@ == biome_effects(b),
{
    let mut v: Vec<TileEffect> = Vec::new();
    match b {
        Biome::Forest => {
            v.push(TileEffect::Poison);
            v.push(TileEffect::Whirlwind);
        },
        Biome::Crypt => {
            v.push(TileEffect::Plague);
            v.push(TileEffect::Broken);
        },
        Biome::Volcano => {
            v.push(TileEffect::Spike);
            v.push(TileEffect::Stone);
        },
        Biome::Abyss => {
            v.push(TileEffect::Plague);
            v.push(TileEffect::Duplicator);
            v.push(TileEffect::Flipped);
        },
        Biome::Void => {
            v.push(TileEffect::Poison);
            v.push(TileEffect::Spike);
            v.push(TileEffect::Plague);
            v.push(TileEffect::Stone);
        },
    }
    assert(v@ =~= biome_effects(b));
    v
}

/// An ability that spreads a tile effect as the biome's enemies do: an
/// effect the biome favours, on one or two tiles, for two to four turns.
pub open spec fn is_biome_effect_ability(a: EnemyAbility, effect: TileEffect) -> bool {
    match a {
        EnemyAbility::ApplyEffect { effect: e, count, timer } => e == effect && 1 <= count <= 2 && 2
            <= timer <= 4,
        _ => false,
    }
}

/// The abilities an enemy of this stage, biome and rank may roll: first
/// effect abilities for some of the biome's effects, in the biome's order;
/// then a self-heal of 10 + stage for a boss with room left; then, from
/// stage 15 on and with room left, possibly an enrage of 1 to 3 attack.
/// Never more than `max_abilities`.
pub open spec fn abilities_ok(stage: int, biome: Biome, is_boss: bool, s: Seq<EnemyAbility>) -> bool {
    exists|picks: Seq<int>| #[trigger] abilities_from(stage, biome, is_boss, s, picks)
}

/// `s` is made as `abilities_ok` says, with the effect abilities taken
/// from the biome's effects at positions `picks`.
pub open spec fn abilities_from(
    stage: int,
    biome: Biome,
    is_boss: bool,
    s: Seq<EnemyAbility>,
    picks: Seq<int>,
) -> bool {
    let m = max_abilities(stage, is_boss);
    let n = picks.len() as int;
    let heal = if is_boss && n < m {
        seq![EnemyAbility::HealSelf { amount: (10 + stage) as i32 }]
    } else {
        Seq::<EnemyAbility>::empty()
    };
    let rest = s.subrange(n, s.len() as int);
    &&& n <= s.len()
    &&& n <= m
    &&& forall|i: int, j: int| 0 <= i < j < n ==> picks[i] < picks[j]
    &&& forall|i: int|
        0 <= i < n ==> 0 <= #[trigger] picks[i] < biome_effects(biome).len()
            && is_biome_effect_ability(s[i], biome_effects(biome)[picks[i]])
    &&& (rest == heal || (stage >= 15 && n + heal.len() < m && rest.len() == heal.len() + 1
        && rest.drop_last() == heal && rest.last() is Enrage && 1 <= rest.last()->bonus_attack <= 3))
}

/// The word rules an enemy of this stage may impose.
pub open spec fn rule_allowed(stage: int, rule: WordConstraint) -> bool {
    ||| rule == WordConstraint::MinLength(4)
    ||| rule == WordConstraint::MustStartWithVowel
    ||| rule == WordConstraint::NoRepeatedLetters
    ||| stage >= 10 && rule == WordConstraint::MinLength(5)
    ||| stage >= 15 && exists|v: char|
        crate::enemy::is_vowel(v) && rule == WordConstraint::MustContainLetter(v)
}

/// Before stage 5 no rule; later at most one of the allowed ones.
pub open spec fn constraint_ok(stage: int, c: Option<WordConstraint>) -> bool {
    &&& stage < 5 ==> c is None
    &&& c is Some ==> rule_allowed(stage, c->0)
}

/// Health of an enemy: 30 + 8 stage, three times that for a boss.
pub open spec fn enemy_hp(stage: int, is_boss: bool) -> int {
    (30 + stage * 8) * if is_boss {
        3int
    } else {
        1int
    }
}

/// Attack of an enemy: 5 + stage / 2, twice that for a boss.
pub open spec fn enemy_attack(stage: int, is_boss: bool) -> int {
    (5 + stage / 2) * if is_boss {
        2int
    } else {
        1int
    }
}

/// Defense of an enemy: stage / 10, at most 8.
pub open spec fn enemy_defense(stage: int) -> int {
    if stage / 10 < 8 {
        stage / 10
    } else {
        8
    }
}

/// An enemy as the generator makes it for this stage, biome and rank.
pub open spec fn enemy_ok(stage: int, biome: Biome, is_boss: bool, e: Enemy) -> bool {
    &&& roster(biome, is_boss).contains((e.name@, e.sprite_key@))
    &&& e.hp == enemy_hp(stage, is_boss)
    &&& e.max_hp == e.hp
    &&& e.attack == enemy_attack(stage, is_boss)
    &&& e.defense == enemy_defense(stage)
    &&& e.is_boss == is_boss
    &&& abilities_ok(stage, biome, is_boss, e.abilities@)
    &&& constraint_ok(stage, e.word_constraint)
}

/// The numbers of an enemy of this stage fit in `i32`.
pub open spec fn stage_fits(stage: int) -> bool {
    enemy_hp(stage, true) <= i32::MAX
}

/// Whether enemies of this stage can be made within `i32`.
pub fn stage_can_generate(stage: u32) -> (r: bool)
    ensures
        r == stage_fits(stage as int),
{
    let wide: u64 = stage as u64;
    (30 + wide * 8) * 3 <= 0x7fff_ffff
}

pub fn generate_enemy(rng: &mut ChaCha8Rng, stage: u32, biome: Biome, is_boss: bool) -> (e: Enemy)
    requires
        stage_fits(stage as int),
    ensures
        enemy_ok(stage as int, biome, is_boss, e),
        !is_boss ==> e.hp == 30 + 8 * stage && e.attack == 5 + stage / 2,
        is_boss ==> e.hp == 3 * (30 + 8 * stage) && e.attack == 2 * (5 + stage / 2),
        e.defense == if stage / 10 < 8 {
            stage / 10
        } else {
            8
        },
{
    let templates = templates_for_biome(biome, is_boss);
    let picked = choose_one(rng, templates.as_slice());
    let template = match picked {
        Some(t) => *t,
        None => {
            proof {
                assert(roster(biome, is_boss).len() > 0);
                assert(templates@.map_values(|t: EnemyTemplate| template_view(t)).len() == templates@.len());
            }
            templates[0]
        },
    };
    proof {
        let i = choose|i: int| 0 <= i < templates@.len() && templates@[i] == template;
        assert(templates@.map_values(|t: EnemyTemplate| template_view(t))[i] == template_view(template));
    }
    let boss_hp_mult: i32 = if is_boss {
        3
    } else {
        1
    };
    let boss_atk_mult: i32 = if is_boss {
        2
    } else {
        1
    };
    let s = stage as i32;
    let hp = (30 + s * 8) * boss_hp_mult;
    let attack = (5 + s / 2) * boss_atk_mult;
    let defense = if s / 10 < 8 {
        s / 10
    } else {
        8
    };
    let abilities = generate_abilities(rng, stage, biome, is_boss);
    let constraint = generate_constraint(rng, stage);
    Enemy {
        name: String::from_str(template.name),
        hp,
        max_hp: hp,
        attack,
        defense,
        is_boss,
        sprite_key: String::from_str(template.sprite),
        word_constraint: constraint,
        abilities,
    }
}

fn generate_abilities(rng: &mut ChaCha8Rng, stage: u32, biome: Biome, is_boss: bool) -> (v: Vec<
    EnemyAbility,
>)
    requires
        stage_fits(stage as int),
    ensures
        abilities_ok(stage as int, biome, is_boss, v@),
{
    let mut abilities: Vec<EnemyAbility> = Vec::new();
    let limit: usize = if is_boss {
        let m = stage / 5 + 2;
        if m < 4 {
            m as usize
        } else {
            4
        }
    } else {
        let m = stage / 5;
        if m < 3 {
            m as usize
        } else {
            3
        }
    };
    let ghost m = limit as int;
    if limit == 0 {
        proof {
            let picks = Seq::<int>::empty();
            assert(abilities@.subrange(0, 0) =~= Seq::<EnemyAbility>::empty());
            assert(abilities_from(stage as int, biome, is_boss, abilities@, picks));
        }
        return abilities;
    }
    let effects = effects_for_biome(biome);
    let ghost mut picks: Seq<int> = Seq::empty();
    let mut j: usize = 0;
    while j < effects.len() && abilities.len() < limit
        invariant
            effects@ == biome_effects(biome),
            m == max_abilities(stage as int, is_boss),
            limit == m,
            j <= effects@.len(),
            abilities@.len() == picks.len(),
            abilities@.len() <= limit,
            forall|a: int, b: int| 0 <= a < b < picks.len() ==> picks[a] < picks[b],
            forall|a: int| 0 <= a < picks.len() ==> #[trigger] picks[a] < j,
            forall|i: int|
                0 <= i < picks.len() ==> 0 <= #[trigger] picks[i] < biome_effects(biome).len()
                    && is_biome_effect_ability(abilities@[i], biome_effects(biome)[picks[i]]),
        decreases effects@.len() - j,
    {
        if gen_ratio(rng, 6, 10) {
            let count = gen_range_usize(rng, 1, 2);
            let timer = gen_range_u8(rng, 2, 4);
            abilities.push(EnemyAbility::ApplyEffect { effect: effects[j], count, timer });
            proof {
                picks = picks.push(j as int);
            }
        }
        j = j + 1;
    }
    let n = abilities.len();
    let ghost effects_part = abilities@;
    if is_boss && abilities.len() < limit {
        abilities.push(EnemyAbility::HealSelf { amount: 10 + stage as i32 });
    }
    let ghost heal = if is_boss && n < limit {
        seq![EnemyAbility::HealSelf { amount: (10 + stage) as i32 }]
    } else {
        Seq::<EnemyAbility>::empty()
    };
    proof {
        assert(abilities@.subrange(n as int, abilities@.len() as int) =~= heal);
    }
    if stage >= 15 && abilities.len() < limit && gen_ratio(rng, 3, 10) {
        let bonus = gen_range_i32(rng, 1, 3);
        abilities.push(EnemyAbility::Enrage { bonus_attack: bonus });
        proof {
            assert(abilities@.subrange(n as int, abilities@.len() as int) =~= heal.push(
                EnemyAbility::Enrage { bonus_attack: bonus },
            ));
            assert(abilities@.subrange(n as int, abilities@.len() as int).drop_last() =~= heal);
        }
    }
    proof {
        assert forall|i: int| 0 <= i < picks.len() implies 0 <= #[trigger] picks[i] < biome_effects(biome).len()
            && is_biome_effect_ability(abilities@[i], biome_effects(biome)[picks[i]]) by {
            assert(abilities@[i] == effects_part[i]);
        }
        assert(abilities_from(stage as int, biome, is_boss, abilities@, picks));
    }
    abilities
}

/// The chance, in twentieths, that an enemy of this stage (5 or later)
/// carries a word rule: one more per stage from stage 5, at most ten.
pub open spec fn constraint_chance(stage: int) -> int {
    if stage - 4 < 10 {
        stage - 4
    } else {
        10
    }
}

pub fn constraint_odds(stage: u32) -> (n: u32)
    requires
        stage >= 5,
    ensures
        n == constraint_chance(stage as int),
        1 <= n <= 10,
{
    let steps = stage - 4;
    if steps < 10 {
        steps
    } else {
        10
    }
}

/// The vowel at `k` in `A E I O U`.
pub open spec fn vowel_at(k: int) -> char {
    if k == 0 {
        'A'
    } else if k == 1 {
        'E'
    } else if k == 2 {
        'I'
    } else if k == 3 {
        'O'
    } else {
        'U'
    }
}

/// The rules an enemy of this stage may draw from: a four-letter minimum,
/// a leading vowel and no repeated letters; from stage 10 a five-letter
/// minimum; from stage 15 a vowel (the one at `vowel_pick`) to contain.
pub open spec fn constraint_pool(stage: int, vowel_pick: int) -> Seq<WordConstraint> {
    seq![WordConstraint::MinLength(4), WordConstraint::MustStartWithVowel, WordConstraint::NoRepeatedLetters]
        + if stage >= 10 {
        seq![WordConstraint::MinLength(5)]
    } else {
        Seq::empty()
    } + if stage >= 15 {
        seq![WordConstraint::MustContainLetter(vowel_at(vowel_pick))]
    } else {
        Seq::empty()
    }
}

/// The pool of rules for this stage, given which vowel was drawn.
pub fn rule_pool(stage: u32, vowel_pick: usize) -> (pool: Vec<WordConstraint>)
    requires
        vowel_pick < 5,
    ensures
        pool@ == constraint_pool(stage as int, vowel_pick as int),
{
    let mut pool: Vec<WordConstraint> = Vec::new();
    pool.push(WordConstraint::MinLength(4));
    pool.push(WordConstraint::MustStartWithVowel);
    pool.push(WordConstraint::NoRepeatedLetters);
    if stage >= 10 {
        pool.push(WordConstraint::MinLength(5));
    }
    if stage >= 15 {
        let letter = if vowel_pick == 0 {
            'A'
        } else if vowel_pick == 1 {
            'E'
        } else if vowel_pick == 2 {
            'I'
        } else if vowel_pick == 3 {
            'O'
        } else {
            'U'
        };
        pool.push(WordConstraint::MustContainLetter(letter));
    }
    proof {
        assert(pool@ =~= constraint_pool(stage as int, vowel_pick as int));
    }
    pool
}

/// Rolls whether an enemy of this stage carries a word rule (never before
/// stage 5; otherwise with chance `constraint_chance` in twenty) and, if so,
/// draws it from the stage's pool. Whether the roll succeeds is left to
/// chance, so `None` is a possible outcome at every stage.
fn generate_constraint(rng: &mut ChaCha8Rng, stage: u32) -> (c: Option<WordConstraint>)
    ensures
        constraint_ok(stage as int, c),
        stage < 5 ==> c is None,
        c is Some ==> exists|k: int| 0 <= k < 5 && #[trigger] constraint_pool(stage as int, k).contains(c->0),
{
    if stage < 5 {
        return None;
    }
    let numerator = constraint_odds(stage);
    if !gen_ratio(rng, numerator, 20) {
        return None;
    }
    let vowel_pick: usize = if stage >= 15 {
        gen_range_usize(rng, 0, 4)
    } else {
        0
    };
    let pool = rule_pool(stage, vowel_pick);
    proof {
        assert forall|i: int| 0 <= i < pool@.len() implies rule_allowed(stage as int, #[trigger] pool@[i]) by {
            if stage >= 15 && i == pool@.len() - 1 {
                assert(crate::enemy::is_vowel(vowel_at(vowel_pick as int)));
            }
        }
    }
    let c = match choose_one(rng, pool.as_slice()) {
        Some(r) => Some(*r),
        None => None,
    };
    proof {
        if c is Some {
            let r = c->0;
            let i = choose|i: int| 0 <= i < pool@.len() && pool@[i] == r;
            assert(constraint_pool(stage as int, vowel_pick as int)[i] == r);
            assert(constraint_pool(stage as int, vowel_pick as int).contains(r));
        }
    }
    c
}

/// The numbers of the enemies of a stage: an ordinary enemy has 30 + 8
/// stage health and 5 + stage / 2 attack; a boss of the same stage has
/// three times the health and twice the attack, and the same defense,
/// stage / 10 at most 8.
pub proof fn law_boss_and_ordinary_enemy(stage: int, biome: Biome, b2: Biome, boss: Enemy, plain: Enemy)
    requires
        stage >= 0,
        enemy_ok(stage, biome, true, boss),
        enemy_ok(stage, b2, false, plain),
    ensures
        plain.hp == 30 + 8 * stage,
        plain.attack == 5 + stage / 2,
        boss.hp == 3 * plain.hp,
        boss.attack == 2 * plain.attack,
        boss.defense == plain.defense,
        plain.defense == if stage / 10 < 8 {
            stage / 10
        } else {
            8
        },
        boss.is_boss && !plain.is_boss,
{
}

} // verus!
