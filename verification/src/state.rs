//! The state of a fight, the screens of the game and the message log.

use crate::board::Board;
use crate::enemy::Enemy;
use crate::shop::ShopItem;
use vstd::prelude::*;

verus! {

#[derive(Debug)]
pub struct CombatState {
    pub board: Board,
    pub enemies: Vec<Enemy>,
    pub current_enemy_idx: usize,
    pub turn_count: u32,
    pub cursor: (usize, usize),
    pub phase: CombatPhase,
    pub lifesteal_active: bool,
}

impl CombatState {
    pub fn current_enemy(&self) -> (e: &Enemy)
        requires
            self.current_enemy_idx < self.enemies@.len(),
        ensures
            *e == self.enemies@[self.current_enemy_idx as int],
    {
        &self.enemies[self.current_enemy_idx]
    }

    pub fn current_enemy_mut(&mut self) -> (e: &mut Enemy)
        requires
            old(self).current_enemy_idx < old(self).enemies@.len(),
        ensures
            *e == old(self).enemies@[old(self).current_enemy_idx as int],
            final(self).enemies@ == old(self).enemies@.update(
                old(self).current_enemy_idx as int,
                *final(e),
            ),
            final(self).current_enemy_idx == old(self).current_enemy_idx,
            final(self).board == old(self).board,
            final(self).phase == old(self).phase,
            final(self).turn_count == old(self).turn_count,
            final(self).cursor == old(self).cursor,
            final(self).lifesteal_active == old(self).lifesteal_active,
    {
        &mut self.enemies[self.current_enemy_idx]
    }

    pub fn has_next_enemy(&self) -> (r: bool)
        requires
            self.current_enemy_idx < self.enemies@.len(),
        ensures
            r == (self.current_enemy_idx + 1 < self.enemies@.len()),
    {
        let n = self.enemies.len();
        self.current_enemy_idx + 1 < n
    }

    /// Moves on to the next enemy if there is one.
    pub fn advance_enemy(&mut self) -> (r: bool)
        requires
            old(self).current_enemy_idx < old(self).enemies@.len(),
        ensures
            r == (old(self).current_enemy_idx + 1 < old(self).enemies@.len()),
            final(self).current_enemy_idx == if r {
                old(self).current_enemy_idx + 1
            } else {
                old(self).current_enemy_idx as int
            },
            final(self).current_enemy_idx < final(self).enemies@.len(),
            final(self).enemies == old(self).enemies,
            final(self).board == old(self).board,
            final(self).phase == old(self).phase,
            final(self).turn_count == old(self).turn_count,
            final(self).cursor == old(self).cursor,
            final(self).lifesteal_active == old(self).lifesteal_active,
    {
        let _count = self.enemies.len();
        if self.has_next_enemy() {
            self.current_enemy_idx = self.current_enemy_idx + 1;
            true
        } else {
            false
        }
    }
}

#[derive(Debug, Clone, PartialEq, Eq)]
pub enum CombatPhase {
    PlayerInput,
    PlayerAttackAnim { damage: i32, is_crit: bool, word: String, ticks_remaining: u8 },
    EnemyTurn { ticks_remaining: u8 },
    EnemyHitAnim { damage: i32, dodged: bool, ticks_remaining: u8 },
    EnemyDefeated { ticks_remaining: u8 },
    Walking { ticks_remaining: u8 },
    StageVictory { gems_earned: u64, ticks_remaining: u8 },
    Defeat,
}

#[derive(Debug, Clone)]
pub struct ShopState {
    pub items: Vec<(ShopItem, u64)>,
    pub selected_index: usize,
}

#[derive(Debug, Clone, Copy, PartialEq, Eq, Structural)]
pub enum Screen {
    Title,
    Combat,
    StageMap,
    Shop,
    Inventory,
    GameOver,
}

#[derive(Debug, Clone)]
pub struct LogEntry {
    pub text: String,
    pub color: LogColor,
}

#[derive(Debug, Clone, Copy, PartialEq, Eq, Structural)]
pub enum LogColor {
    Normal,
    PlayerDamage,
    EnemyDamage,
    Heal,
    Crit,
    Info,
    Warning,
}

} // verus!
