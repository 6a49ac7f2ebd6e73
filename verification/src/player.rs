//! The player: health, stats, gems and gear.

use crate::enemy::hit_damage;
use crate::equipment::{Book, Potion, Weapon, WeaponKind};
use crate::text::{decimal, int_to_string, join3};
use vstd::prelude::*;

verus! {

/// Chances are counted in thousandths, the critical multiplier in hundredths.
#[derive(Debug, Clone)]
pub struct Player {
    pub hp: i32,
    pub max_hp: i32,
    pub base_attack: i32,
    pub armor: i32,
    pub dodge_permille: u32,
    pub crit_permille: u32,
    pub crit_multiplier_percent: u32,
    pub gems: u64,
    pub weapon: Weapon,
    pub books: Vec<Book>,
    pub potions: Vec<Potion>,
    pub max_potions: usize,
    pub upgrades: PlayerUpgrades,
}

#[derive(Debug, Clone, Copy, PartialEq, Eq, Structural)]
pub struct PlayerUpgrades {
    pub hp_level: u32,
    pub attack_level: u32,
    pub armor_level: u32,
    pub dodge_level: u32,
    pub potion_capacity_level: u32,
}

impl Default for PlayerUpgrades {
    fn default() -> (u: Self)
        ensures
            u == (PlayerUpgrades {
                hp_level: 0,
                attack_level: 0,
                armor_level: 0,
                dodge_level: 0,
                potion_capacity_level: 0,
            }),
    {
        PlayerUpgrades {
            hp_level: 0,
            attack_level: 0,
            armor_level: 0,
            dodge_level: 0,
            potion_capacity_level: 0,
        }
    }
}

/// Health after a change, kept within `0 ..= max`.
pub open spec fn healed_hp(hp: int, amount: int, max: int) -> int {
    if hp + amount < max {
        hp + amount
    } else {
        max
    }
}

/// What using a potion reports.
pub open spec fn potion_message(p: Potion) -> Seq<char> {
    match p {
        Potion::Healing { power } => "Healed for "@ + decimal(power as int) + " HP!"@,
        Potion::Purity => "Cleansed all tile effects!"@,
        Potion::Lifesteal => "Next word heals for damage dealt!"@,
    }
}

/// `p` holds the same values as `q`.
pub open spec fn same_player(p: Player, q: Player) -> bool {
    &&& p == (Player { books: p.books, potions: p.potions, ..q })
    &&& p.books@ == q.books@
    &&& p.potions@ == q.potions@
}

impl Player {
    /// A copy of the player, to be kept apart (as in a saved run).
    pub fn snapshot(&self) -> (p: Player)
        ensures
            same_player(p, *self),
    {
        let books = self.books.clone();
        let potions = self.potions.clone();
        proof {
            assert(books@ =~= self.books@);
            assert(potions@ =~= self.potions@);
        }
        Player {
            hp: self.hp,
            max_hp: self.max_hp,
            base_attack: self.base_attack,
            armor: self.armor,
            dodge_permille: self.dodge_permille,
            crit_permille: self.crit_permille,
            crit_multiplier_percent: self.crit_multiplier_percent,
            gems: self.gems,
            weapon: self.weapon,
            books,
            potions,
            max_potions: self.max_potions,
            upgrades: self.upgrades,
        }
    }

    /// A fresh player: 100 health, attack 5, no armor, 5% dodge, 10% critical
    /// chance at 150%, a basic scythe and one healing potion of power 30.
    pub fn new() -> (p: Player)
        ensures
            p.hp == 100,
            p.max_hp == 100,
            p.base_attack == 5,
            p.armor == 0,
            p.dodge_permille == 50,
            p.crit_permille == 100,
            p.crit_multiplier_percent == 150,
            p.gems == 0,
            p.weapon == (Weapon { kind: WeaponKind::BasicScythe, level: 1 }),
            p.books@ == Seq::<Book>::empty(),
            p.potions@ == seq![Potion::Healing { power: 30 }],
            p.max_potions == 3,
            p.upgrades == (PlayerUpgrades {
                hp_level: 0,
                attack_level: 0,
                armor_level: 0,
                dodge_level: 0,
                potion_capacity_level: 0,
            }),
    {
        let mut potions: Vec<Potion> = Vec::new();
        potions.push(Potion::Healing { power: 30 });
        Player {
            hp: 100,
            max_hp: 100,
            base_attack: 5,
            armor: 0,
            dodge_permille: 50,
            crit_permille: 100,
            crit_multiplier_percent: 150,
            gems: 0,
            weapon: Weapon::default(),
            books: Vec::new(),
            potions,
            max_potions: 3,
            upgrades: PlayerUpgrades::default(),
        }
    }

    pub fn is_alive(&self) -> (r: bool)
        ensures
            r == (self.hp > 0),
    {
        self.hp > 0
    }

    /// Takes a hit; returns the damage done after armor (at least 1).
    /// Health does not drop below zero.
    pub fn take_damage(&mut self, raw_damage: i32) -> (actual: i32)
        requires
            i32::MIN <= raw_damage - old(self).armor <= i32::MAX,
            i32::MIN <= old(self).hp - hit_damage(raw_damage as int, old(self).armor as int),
        ensures
            actual == hit_damage(raw_damage as int, old(self).armor as int),
            final(self).hp == if old(self).hp - actual > 0 {
                old(self).hp - actual
            } else {
                0
            },
            *final(self) == (Player { hp: final(self).hp, ..*old(self) }),
    {
        let diff = raw_damage - self.armor;
        let actual = if diff > 1 {
            diff
        } else {
            1
        };
        let left = self.hp - actual;
        self.hp = if left > 0 {
            left
        } else {
            0
        };
        actual
    }

    /// Heals, never above maximum health.
    pub fn heal(&mut self, amount: i32)
        requires
            i32::MIN <= old(self).hp + amount <= i32::MAX,
        ensures
            final(self).hp == healed_hp(old(self).hp as int, amount as int, old(self).max_hp as int),
            *final(self) == (Player { hp: final(self).hp, ..*old(self) }),
    {
        let raised = self.hp + amount;
        self.hp = if raised < self.max_hp {
            raised
        } else {
            self.max_hp
        };
    }

    /// Uses the potion at `index`: it leaves the bag, a healing potion heals
    /// by its power, and the message says what happened. `None` when there
    /// is no potion there.
    pub fn use_potion(&mut self, index: usize) -> (r: Option<String>)
        requires
            index < old(self).potions@.len() ==> match old(self).potions@[index as int] {
                Potion::Healing { power } => i32::MIN <= old(self).hp + power <= i32::MAX,
                _ => true,
            },
        ensures
            index >= old(self).potions@.len() ==> r is None && *final(self) == *old(self),
            index < old(self).potions@.len() ==> {
                let p = old(self).potions@[index as int];
                &&& r is Some
                &&& r->0@ == potion_message(p)
                &&& final(self).potions@ == old(self).potions@.remove(index as int)
                &&& final(self).hp == match p {
                    Potion::Healing { power } => healed_hp(
                        old(self).hp as int,
                        power as int,
                        old(self).max_hp as int,
                    ),
                    _ => old(self).hp as int,
                }
                &&& *final(self) == (Player { hp: final(self).hp, potions: final(self).potions, ..*old(self) })
            },
    {
        if index >= self.potions.len() {
            return None;
        }
        let potion = self.potions.remove(index);
        match potion {
            Potion::Healing { power } => {
                self.heal(power);
                let n = int_to_string(power as i64);
                Some(join3("Healed for ", n.as_str(), " HP!"))
            },
            Potion::Purity => Some(String::from_str("Cleansed all tile effects!")),
            Potion::Lifesteal => Some(String::from_str("Next word heals for damage dealt!")),
        }
    }

    pub fn has_potions(&self) -> (r: bool)
        ensures
            r == (self.potions@.len() > 0),
    {
        self.potions.len() > 0
    }
}

/// Healing never lifts health above the maximum.
pub proof fn law_heal_stays_within_max(hp: int, amount: int, max: int)
    requires
        hp <= max,
    ensures
        healed_hp(hp, amount, max) <= max,
{
}

} // verus!
