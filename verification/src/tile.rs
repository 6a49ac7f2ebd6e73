//! Letter tiles: their letter, rarity, status effect and selection state.

use crate::rng::gen_range_u8;
use rand_chacha::ChaCha8Rng;
use vstd::prelude::*;

verus! {

/// A status effect that can sit on a tile.
#[derive(Debug, Clone, Copy, PartialEq, Eq, Structural)]
pub enum TileEffect {
    Normal,
    Crystal,
    Poison,
    Spike,
    Plague,
    Stone,
    Whirlwind,
    Duplicator,
    Flipped,
    Broken,
}

/// How rare (and valuable) a tile is.
#[derive(Debug, Clone, Copy, PartialEq, Eq, Structural)]
pub enum TileRarity {
    Bronze,
    Silver,
    Gold,
}

/// One letter tile on the board.
#[derive(Debug, Clone, Copy, PartialEq, Eq, Structural)]
pub struct Tile {
    pub letter: char,
    pub rarity: TileRarity,
    pub effect: TileEffect,
    pub timer: Option<u8>,
    pub selected: bool,
    pub select_order: Option<u8>,
}

/// Effects that hurt the player; Normal and Crystal are the harmless ones.
pub open spec fn spec_is_negative(e: TileEffect) -> bool {
    !(e == TileEffect::Normal || e == TileEffect::Crystal)
}

pub open spec fn effect_debug_name(e: TileEffect) -> Seq<char> {
    match e {
        TileEffect::Normal => "Normal"@,
        TileEffect::Crystal => "Crystal"@,
        TileEffect::Poison => "Poison"@,
        TileEffect::Spike => "Spike"@,
        TileEffect::Plague => "Plague"@,
        TileEffect::Stone => "Stone"@,
        TileEffect::Whirlwind => "Whirlwind"@,
        TileEffect::Duplicator => "Duplicator"@,
        TileEffect::Flipped => "Flipped"@,
        TileEffect::Broken => "Broken"@,
    }
}

impl TileEffect {
    /// Whether the effect is a negative one (anything but Normal and Crystal).
    pub fn is_negative(&self) -> (r: bool)
        ensures
            r == spec_is_negative(*self),
    {
        match self {
            TileEffect::Normal | TileEffect::Crystal => false,
            _ => true,
        }
    }

    /// The variant's name, as `{:?}` prints it.
    pub fn debug_name(&self) -> (r: &'static str)
        ensures
            r@ == effect_debug_name(*self),
    {
        match self {
            TileEffect::Normal => "Normal",
            TileEffect::Crystal => "Crystal",
            TileEffect::Poison => "Poison",
            TileEffect::Spike => "Spike",
            TileEffect::Plague => "Plague",
            TileEffect::Stone => "Stone",
            TileEffect::Whirlwind => "Whirlwind",
            TileEffect::Duplicator => "Duplicator",
            TileEffect::Flipped => "Flipped",
            TileEffect::Broken => "Broken",
        }
    }
}

impl Tile {
    /// A fresh, unselected tile without effect.
    pub open spec fn spec_new(letter: char, rarity: TileRarity) -> Tile {
        Tile {
            letter,
            rarity,
            effect: TileEffect::Normal,
            timer: None,
            selected: false,
            select_order: None,
        }
    }

    /// Whether a tile may be picked: a stone tile cannot.
    pub open spec fn spec_is_selectable(self) -> bool {
        self.effect != TileEffect::Stone
    }

    pub fn new(letter: char, rarity: TileRarity) -> (t: Tile)
        ensures
            t == Tile::spec_new(letter, rarity),
    {
        Tile {
            letter,
            rarity,
            effect: TileEffect::Normal,
            timer: None,
            selected: false,
            select_order: None,
        }
    }

    pub fn is_selectable(&self) -> (r: bool)
        ensures
            r == self.spec_is_selectable(),
    {
        self.effect != TileEffect::Stone
    }
}

/// Whether `c` is one of the upper-case letters `A` to `Z`.
pub open spec fn is_upper_letter(c: char) -> bool {
    'A' <= c <= 'Z'
}

/// A fresh tile as the generator deals it: no effect, not selected.
pub open spec fn is_fresh(t: Tile) -> bool {
    &&& is_upper_letter(t.letter)
    &&& t.effect == TileEffect::Normal
    &&& t.timer is None
    &&& !t.selected
    &&& t.select_order is None
}

/// Draws a letter from `A` to `Z`, each equally likely.
pub fn random_letter(rng: &mut ChaCha8Rng) -> (c: char)
    ensures
        is_upper_letter(c),
{
    let n = gen_range_u8(rng, 0, 25);
    let b: u8 = 65 + n;
    b as char
}

/// Draws a fresh tile: a random letter, bronze seven times in ten, silver
/// twice in ten and gold once in ten.
pub fn random_tile(rng: &mut ChaCha8Rng) -> (t: Tile)
    ensures
        is_fresh(t),
{
    let letter = random_letter(rng);
    let roll = gen_range_u8(rng, 0, 9);
    let rarity = if roll < 7 {
        TileRarity::Bronze
    } else if roll < 9 {
        TileRarity::Silver
    } else {
        TileRarity::Gold
    };
    Tile::new(letter, rarity)
}

} // verus!
