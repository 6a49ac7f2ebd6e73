use lexicon_reaper::board::Board;
use lexicon_reaper::tile::{TileEffect, TileRarity};
use rand::SeedableRng;
use rand_chacha::ChaCha8Rng;

fn seeded(seed: u64) -> ChaCha8Rng {
    ChaCha8Rng::seed_from_u64(seed)
}

fn board_with(letters: &str, seed: u64) -> (Board, ChaCha8Rng) {
    let mut rng = seeded(seed);
    let mut board = Board::new(&mut rng);
    let chars: Vec<char> = letters.chars().collect();
    for (i, ch) in chars.iter().enumerate() {
        let t = board.tile_mut(i / 5, i % 5);
        t.letter = *ch;
        t.rarity = TileRarity::Bronze;
    }
    (board, rng)
}

#[test]
fn new_board_is_fresh() {
    let mut rng = seeded(7);
    let board = Board::new(&mut rng);
    for r in 0..3 {
        for c in 0..5 {
            let t = board.tile(r, c);
            assert!(t.letter.is_ascii_uppercase());
            assert_eq!(t.effect, TileEffect::Normal);
            assert!(!t.selected);
            assert_eq!(t.select_order, None);
        }
    }
    assert_eq!(board.selection_count(), 0);
    assert_eq!(board.selected_word(), "");
}

#[test]
fn picking_tiles_spells_the_word_in_order() {
    let (mut board, _) = board_with("CATSDOGBIRDFISH", 1);
    assert!(board.toggle_select(0, 2));
    assert!(board.toggle_select(0, 0));
    assert!(board.toggle_select(0, 1));
    assert_eq!(board.selected_word(), "TCA");
    assert_eq!(board.selection_count(), 3);
    assert_eq!(board.selected_positions(), vec![(0, 2), (0, 0), (0, 1)]);
}

#[test]
fn toggling_twice_restores_the_board() {
    let (mut board, _) = board_with("CATSDOGBIRDFISH", 2);
    board.toggle_select(1, 1);
    let before: Vec<_> = (0..15).map(|k| *board.tile(k / 5, k % 5)).collect();
    board.toggle_select(2, 3);
    board.toggle_select(2, 3);
    let after: Vec<_> = (0..15).map(|k| *board.tile(k / 5, k % 5)).collect();
    assert_eq!(before, after);
    assert_eq!(board.selected_word(), "G");
}

#[test]
fn unpicking_a_middle_tile_closes_the_gap() {
    let (mut board, _) = board_with("CATSDOGBIRDFISH", 3);
    board.toggle_select(0, 0);
    board.toggle_select(0, 1);
    board.toggle_select(0, 2);
    board.toggle_select(0, 1);
    assert_eq!(board.selected_word(), "CT");
    assert_eq!(board.tile(0, 2).select_order, Some(2));
}

#[test]
fn undo_drops_the_last_letter_and_restores() {
    let (mut board, _) = board_with("CATSDOGBIRDFISH", 4);
    board.toggle_select(0, 0);
    let before: Vec<_> = (0..15).map(|k| *board.tile(k / 5, k % 5)).collect();
    board.toggle_select(1, 4);
    assert_eq!(board.selected_word(), "CR");
    assert!(board.undo_last_select());
    assert_eq!(board.selected_word(), "C");
    let after: Vec<_> = (0..15).map(|k| *board.tile(k / 5, k % 5)).collect();
    assert_eq!(before, after);
    assert!(board.undo_last_select());
    assert!(!board.undo_last_select());
}

#[test]
fn stone_tiles_cannot_be_picked() {
    let (mut board, _) = board_with("CATSDOGBIRDFISH", 5);
    board.tile_mut(0, 0).effect = TileEffect::Stone;
    assert!(!board.toggle_select(0, 0));
    assert_eq!(board.selection_count(), 0);
}

#[test]
fn clearing_the_selection_unpicks_everything() {
    let (mut board, _) = board_with("CATSDOGBIRDFISH", 6);
    board.toggle_select(0, 0);
    board.toggle_select(2, 4);
    board.clear_selection();
    assert_eq!(board.selection_count(), 0);
    assert_eq!(board.selected_word(), "");
    assert!(!board.tile(2, 4).selected);
}

#[test]
fn cleansing_removes_negative_effects_only() {
    let (mut board, _) = board_with("CATSDOGBIRDFISH", 8);
    board.tile_mut(0, 0).effect = TileEffect::Poison;
    board.tile_mut(0, 0).timer = Some(3);
    board.tile_mut(0, 1).effect = TileEffect::Crystal;
    board.tile_mut(0, 2).effect = TileEffect::Stone;
    board.cleanse_effects();
    assert_eq!(board.tile(0, 0).effect, TileEffect::Normal);
    assert_eq!(board.tile(0, 0).timer, None);
    assert_eq!(board.tile(0, 1).effect, TileEffect::Crystal);
    assert_eq!(board.tile(0, 2).effect, TileEffect::Normal);
}

#[test]
fn counting_selected_tiles_by_effect() {
    let (mut board, _) = board_with("CATSDOGBIRDFISH", 9);
    board.tile_mut(0, 0).effect = TileEffect::Poison;
    board.tile_mut(0, 1).effect = TileEffect::Poison;
    board.toggle_select(0, 0);
    board.toggle_select(0, 2);
    assert_eq!(board.count_selected_with_effect(TileEffect::Poison), 1);
    assert_eq!(board.count_selected_with_effect(TileEffect::Normal), 1);
}

#[test]
fn consumed_tiles_are_dealt_anew_and_nothing_stays_selected() {
    let (mut board, mut rng) = board_with("CATSDOGBIRDFISH", 10);
    board.toggle_select(0, 0);
    board.toggle_select(0, 1);
    let untouched = *board.tile(2, 2);
    board.consume_selected(&mut rng, 0);
    assert_eq!(board.selection_count(), 0);
    assert_eq!(*board.tile(2, 2), untouched);
    assert!(!board.tile(0, 0).selected);
    assert!(board.tile(0, 0).letter.is_ascii_uppercase());
}

#[test]
fn certain_crystal_makes_every_new_tile_crystal() {
    let (mut board, mut rng) = board_with("CATSDOGBIRDFISH", 11);
    board.toggle_select(1, 0);
    board.consume_selected(&mut rng, 1000);
    assert_eq!(board.tile(1, 0).effect, TileEffect::Crystal);
    assert_eq!(board.tile(1, 0).timer, Some(3));
}

#[test]
fn shuffling_deals_a_fresh_board() {
    let (mut board, mut rng) = board_with("CATSDOGBIRDFISH", 12);
    board.toggle_select(0, 0);
    board.tile_mut(1, 1).effect = TileEffect::Spike;
    board.shuffle(&mut rng);
    assert_eq!(board.selection_count(), 0);
    for k in 0..15 {
        let t = board.tile(k / 5, k % 5);
        assert_eq!(t.effect, TileEffect::Normal);
        assert!(!t.selected);
    }
}

#[test]
fn applying_effects_hits_normal_tiles_only() {
    let (mut board, mut rng) = board_with("CATSDOGBIRDFISH", 13);
    for k in 0..14 {
        board.tile_mut(k / 5, k % 5).effect = TileEffect::Crystal;
    }
    board.apply_effect_to_random(&mut rng, TileEffect::Poison, 3, 2);
    assert_eq!(board.tile(2, 4).effect, TileEffect::Poison);
    assert_eq!(board.tile(2, 4).timer, Some(2));
    for k in 0..14 {
        assert_eq!(board.tile(k / 5, k % 5).effect, TileEffect::Crystal);
    }
}

#[test]
fn cleansing_one_tile_reports_whether_there_was_one() {
    let (mut board, mut rng) = board_with("CATSDOGBIRDFISH", 14);
    assert!(!board.cleanse_one_random(&mut rng));
    board.tile_mut(1, 2).effect = TileEffect::Broken;
    assert!(board.cleanse_one_random(&mut rng));
    assert_eq!(board.tile(1, 2).effect, TileEffect::Normal);
}

#[test]
fn ticking_counts_timers_down_and_expires_effects() {
    let (mut board, mut rng) = board_with("CATSDOGBIRDFISH", 15);
    board.tile_mut(0, 0).effect = TileEffect::Poison;
    board.tile_mut(0, 0).timer = Some(2);
    board.tile_mut(0, 1).effect = TileEffect::Spike;
    board.tile_mut(0, 1).timer = Some(1);
    board.tick_effects(&mut rng);
    assert_eq!(board.tile(0, 0).effect, TileEffect::Poison);
    assert_eq!(board.tile(0, 0).timer, Some(1));
    assert_eq!(board.tile(0, 1).effect, TileEffect::Normal);
    assert_eq!(board.tile(0, 1).timer, None);
}

#[test]
fn undo_takes_back_a_pick_and_its_number() {
    let (mut board, _) = board_with("CATSDOGBIRDFISH", 11);
    board.toggle_select(0, 3);
    let before: Vec<_> = (0..15).map(|k| *board.tile(k / 5, k % 5)).collect();
    assert!(board.toggle_select(2, 1));
    assert!(board.undo_last_select());
    let after: Vec<_> = (0..15).map(|k| *board.tile(k / 5, k % 5)).collect();
    assert_eq!(before, after);
    assert!(board.toggle_select(1, 1));
    assert_eq!(board.tile(1, 1).select_order, Some(2));
}

#[test]
fn counts_by_effect_add_up_to_the_selection() {
    let (mut board, _) = board_with("CATSDOGBIRDFISH", 12);
    board.tile_mut(0, 0).effect = TileEffect::Poison;
    board.tile_mut(0, 1).effect = TileEffect::Spike;
    board.tile_mut(0, 2).effect = TileEffect::Crystal;
    board.tile_mut(1, 0).effect = TileEffect::Broken;
    for (r, c) in [(0, 0), (0, 1), (0, 2), (1, 0), (1, 1)] {
        board.toggle_select(r, c);
    }
    let all = [
        TileEffect::Normal,
        TileEffect::Crystal,
        TileEffect::Poison,
        TileEffect::Spike,
        TileEffect::Plague,
        TileEffect::Stone,
        TileEffect::Whirlwind,
        TileEffect::Duplicator,
        TileEffect::Flipped,
        TileEffect::Broken,
    ];
    let total: usize = all.iter().map(|e| board.count_selected_with_effect(*e)).sum();
    assert_eq!(total, board.selection_count());
    assert_eq!(total, 5);
}
