//! Verified core of a word-spelling roguelike: the letter board and its
//! selection rules, the dictionary trie, combat resolution, equipment, the
//! shop, run statistics, stage generation and the turn-by-turn flow.

pub mod rng;
pub mod text;
pub mod tile;
pub mod board;
pub mod trie;
pub mod dictionary;
pub mod definitions;
pub mod equipment;
pub mod enemy;
pub mod player;
pub mod shop;
pub mod stats;
pub mod state;
pub mod stage;
pub mod enemy_gen;
pub mod combat;
pub mod event;
pub mod app;
pub mod sprites;
