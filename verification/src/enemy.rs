//! Enemies, the word rules some of them impose, and their abilities.

use crate::text::{ascii_upper, chars_of, join, push_char, spec_ascii_upper, spec_to_uppercase, to_uppercase, uint_to_string, decimal};
use crate::tile::TileEffect;
use vstd::prelude::*;
use vstd::string::StringSliceAdditionalSpecFns;

verus! {

#[derive(Debug, Clone)]
pub struct Enemy {
    pub name: String,
    pub hp: i32,
    pub max_hp: i32,
    pub attack: i32,
    pub defense: i32,
    pub is_boss: bool,
    pub sprite_key: String,
    pub word_constraint: Option<WordConstraint>,
    pub abilities: Vec<EnemyAbility>,
}

#[derive(Debug, Clone, Copy, PartialEq, Eq, Structural)]
pub enum WordConstraint {
    MinLength(usize),
    MaxLength(usize),
    MustStartWithVowel,
    MustContainLetter(char),
    NoRepeatedLetters,
}

pub open spec fn is_vowel(c: char) -> bool {
    c == 'A' || c == 'E' || c == 'I' || c == 'O' || c == 'U'
}

/// Whether the upper-cased word `u` obeys the rule. Lengths count bytes of
/// the UTF-8 encoding.
pub open spec fn obeys(rule: WordConstraint, u: Seq<char>) -> bool {
    match rule {
        WordConstraint::MinLength(n) => vstd::utf8::encode_utf8(u).len() >= n,
        WordConstraint::MaxLength(n) => vstd::utf8::encode_utf8(u).len() <= n,
        WordConstraint::MustStartWithVowel => u.len() > 0 && is_vowel(u[0]),
        WordConstraint::MustContainLetter(ch) => u.contains(spec_ascii_upper(ch)),
        WordConstraint::NoRepeatedLetters => u.no_duplicates(),
    }
}

/// The rule as the player reads it.
pub open spec fn rule_text(rule: WordConstraint) -> Seq<char> {
    match rule {
        WordConstraint::MinLength(n) => decimal(n as int) + "+ letter words only!"@,
        WordConstraint::MaxLength(n) => decimal(n as int) + " letters max!"@,
        WordConstraint::MustStartWithVowel => "Must start with a vowel!"@,
        WordConstraint::MustContainLetter(ch) => "Must contain '"@.push(spec_ascii_upper(ch)) + "'!"@,
        WordConstraint::NoRepeatedLetters => "No repeated letters!"@,
    }
}

impl WordConstraint {
    pub fn check(&self, word: &str) -> (r: bool)
        ensures
            r == obeys(*self, spec_to_uppercase(word@)),
    {
        let upper = to_uppercase(word);
        let u = upper.as_str();
        match self {
            WordConstraint::MinLength(n) => u.as_bytes().len() >= *n,
            WordConstraint::MaxLength(n) => u.as_bytes().len() <= *n,
            WordConstraint::MustStartWithVowel => {
                if u.unicode_len() == 0 {
                    false
                } else {
                    let c = u.get_char(0);
                    c == 'A' || c == 'E' || c == 'I' || c == 'O' || c == 'U'
                }
            },
            WordConstraint::MustContainLetter(ch) => {
                let target = ascii_upper(*ch);
                let cs = chars_of(u);
                let mut i: usize = 0;
                while i < cs.len()
                    invariant
                        cs@ == u@,
                        u@ == spec_to_uppercase(word@),
                        target == spec_ascii_upper(*ch),
                        *self == WordConstraint::MustContainLetter(*ch),
                        i <= cs@.len(),
                        forall|j: int| 0 <= j < i ==> cs@[j] != target,
                    decreases cs@.len() - i,
                {
                    if cs[i] == target {
                        proof {
                            assert(u@[i as int] == target);
                        }
                        return true;
                    }
                    i = i + 1;
                }
                false
            },
            WordConstraint::NoRepeatedLetters => {
                let cs = chars_of(u);
                let mut i: usize = 0;
                while i < cs.len()
                    invariant
                        cs@ == u@,
                        u@ == spec_to_uppercase(word@),
                        *self == WordConstraint::NoRepeatedLetters,
                        i <= cs@.len(),
                        forall|a: int, b: int| 0 <= a < i && 0 <= b < cs@.len() && a != b ==> cs@[a] != cs@[b],
                    decreases cs@.len() - i,
                {
                    let mut j: usize = 0;
                    while j < cs.len()
                        invariant
                            cs@ == u@,
                            u@ == spec_to_uppercase(word@),
                            *self == WordConstraint::NoRepeatedLetters,
                            i < cs@.len(),
                            j <= cs@.len(),
                            forall|a: int, b: int| 0 <= a < i && 0 <= b < cs@.len() && a != b ==> cs@[a] != cs@[b],
                            forall|b: int| 0 <= b < j && b != i ==> cs@[i as int] != cs@[b],
                        decreases cs@.len() - j,
                    {
                        if j != i && cs[i] == cs[j] {
                            proof {
                                assert(!u@.no_duplicates());
                            }
                            return false;
                        }
                        j = j + 1;
                    }
                    i = i + 1;
                }
                true
            },
        }
    }

    pub fn description(&self) -> (r: String)
        ensures
            r@ == rule_text(*self),
    {
        match self {
            WordConstraint::MinLength(n) => {
                let num = uint_to_string(*n as u64);
                join(num.as_str(), "+ letter words only!")
            },
            WordConstraint::MaxLength(n) => {
                let num = uint_to_string(*n as u64);
                join(num.as_str(), " letters max!")
            },
            WordConstraint::MustStartWithVowel => String::from_str("Must start with a vowel!"),
            WordConstraint::MustContainLetter(ch) => {
                let mut s = String::from_str("Must contain '");
                push_char(&mut s, ascii_upper(*ch));
                s.append("'!");
                s
            },
            WordConstraint::NoRepeatedLetters => String::from_str("No repeated letters!"),
        }
    }
}

#[derive(Debug, Clone, Copy, PartialEq, Eq, Structural)]
pub enum EnemyAbility {
    ApplyEffect { effect: TileEffect, count: usize, timer: u8 },
    HealSelf { amount: i32 },
    Enrage { bonus_attack: i32 },
}

/// The damage a hit of `damage` does through `defense`: at least one.
pub open spec fn hit_damage(damage: int, defense: int) -> int {
    if damage - defense > 1 {
        damage - defense
    } else {
        1
    }
}

impl Enemy {
    pub fn is_alive(&self) -> (r: bool)
        ensures
            r == (self.hp > 0),
    {
        self.hp > 0
    }

    /// Takes a hit; returns the damage done after defense (at least 1).
    /// Health does not drop below zero.
    pub fn take_damage(&mut self, damage: i32) -> (actual: i32)
        requires
            i32::MIN <= damage - old(self).defense <= i32::MAX,
            i32::MIN <= old(self).hp - hit_damage(damage as int, old(self).defense as int),
        ensures
            actual == hit_damage(damage as int, old(self).defense as int),
            final(self).hp == if old(self).hp - actual > 0 {
                old(self).hp - actual
            } else {
                0
            },
            *final(self) == (Enemy { hp: final(self).hp, ..*old(self) }),
    {
        let diff = damage - self.defense;
        let actual = if diff > 1 {
            diff
        } else {
            1
        };
        let left = self.hp - actual;
        self.hp = if left > 0 {
            left
        } else {
            0
        };
        actual
    }

    /// Heals, never above maximum health.
    pub fn heal(&mut self, amount: i32)
        requires
            i32::MIN <= old(self).hp + amount <= i32::MAX,
        ensures
            final(self).hp == if old(self).hp + amount < old(self).max_hp {
                old(self).hp + amount
            } else {
                old(self).max_hp as int
            },
            *final(self) == (Enemy { hp: final(self).hp, ..*old(self) }),
    {
        let raised = self.hp + amount;
        self.hp = if raised < self.max_hp {
            raised
        } else {
            self.max_hp
        };
    }
}

/// A simple enemy to try things out against.
pub fn test_enemy() -> (e: Enemy)
    ensures
        e.name@ == "Forest Goblin"@,
        e.hp == 50,
        e.max_hp == 50,
        e.attack == 8,
        e.defense == 0,
        !e.is_boss,
        e.sprite_key@ == "goblin"@,
        e.word_constraint is None,
        e.abilities@.len() == 0,
{
    Enemy {
        name: String::from_str("Forest Goblin"),
        hp: 50,
        max_hp: 50,
        attack: 8,
        defense: 0,
        is_boss: false,
        sprite_key: String::from_str("goblin"),
        word_constraint: None,
        abilities: Vec::new(),
    }
}

/// Every blow does at least one point of damage, whatever the defense.
pub proof fn law_hit_deals_at_least_one(damage: int, defense: int)
    ensures
        hit_damage(damage, defense) >= 1,
{
}

} // verus!
