use lexicon_reaper::app::{Action, App, LoadOutcome};
use lexicon_reaper::combat::DamageResult;
use lexicon_reaper::dictionary::Dictionary;
use lexicon_reaper::equipment::{Book, BookKind, Potion};
use lexicon_reaper::event::{Event, KeyCode, KeyPress};
use lexicon_reaper::player::Player;
use lexicon_reaper::state::{CombatPhase, LogColor, Screen};
use lexicon_reaper::stats::RunStats;
use rand::SeedableRng;
use rand_chacha::ChaCha8Rng;

fn key(code: KeyCode) -> Event {
    Event::Key(KeyPress::plain(code))
}

fn app() -> App {
    let mut app = App::new(Dictionary::new("cat\ncats\ndog\nbird"), false, ChaCha8Rng::seed_from_u64(42));
    app
}

fn in_combat() -> App {
    let mut app = app();
    let act = app.update(key(KeyCode::Enter));
    assert!(matches!(act, Action::DeleteSave));
    app
}

fn spell(app: &mut App, word: &str) {
    let c = app.combat.as_mut().unwrap();
    c.enemies[0].word_constraint = None;
    for (i, ch) in word.chars().enumerate() {
        c.board.tile_mut(0, i).letter = ch;
        c.board.tile_mut(0, i).effect = lexicon_reaper::tile::TileEffect::Normal;
        c.board.toggle_select(0, i);
    }
}

fn roll(raw: i32) -> DamageResult {
    DamageResult { raw_damage: raw, is_crit: false, self_damage: 0, lifesteal: 0, bonus_turn: false }
}

fn last_log(app: &App) -> String {
    app.message_log.last().unwrap().text.clone()
}

fn phase(app: &App) -> CombatPhase {
    app.combat.as_ref().unwrap().phase.clone()
}

#[test]
fn the_title_menu_moves_and_starts_a_run() {
    let mut app = app();
    assert_eq!(app.current_screen(), Screen::Title);
    app.update(key(KeyCode::Up));
    assert_eq!(app.menu_selection, 0);
    app.update(key(KeyCode::Down));
    app.update(key(KeyCode::Down));
    assert_eq!(app.menu_selection, 1);
    app.update(key(KeyCode::Up));
    let act = app.update(key(KeyCode::Enter));
    assert!(matches!(act, Action::DeleteSave));
    assert_eq!(app.current_screen(), Screen::Combat);
    assert_eq!(app.stage_number, 1);
    assert_eq!(app.message_log[0].text, "--- Stage 1 | Haunted Forest ---");
    assert_eq!(app.message_log[0].color, LogColor::Info);
    assert!(app.message_log[1].text.starts_with("A wild "));
    let c = app.combat.as_ref().unwrap();
    assert_eq!(c.enemies.len(), 1);
    assert_eq!(c.phase, CombatPhase::PlayerInput);
}

#[test]
fn with_a_save_the_title_offers_to_continue() {
    let mut app = App::new(Dictionary::new("cat"), true, ChaCha8Rng::seed_from_u64(42));
    let act = app.update(key(KeyCode::Enter));
    assert!(matches!(act, Action::LoadSave));
    assert_eq!(app.current_screen(), Screen::Title);
    app.update(key(KeyCode::Down));
    app.update(key(KeyCode::Down));
    app.update(key(KeyCode::Down));
    assert_eq!(app.menu_selection, 2);
    app.update(key(KeyCode::Enter));
    assert!(app.should_quit);
}

#[test]
fn control_c_quits_anywhere() {
    let mut app = in_combat();
    app.update(Event::Key(KeyPress { code: KeyCode::Char('c'), ctrl: true }));
    assert!(app.should_quit);
}

#[test]
fn overlays_open_and_any_key_closes_them() {
    let mut app = in_combat();
    app.update(key(KeyCode::Char('?')));
    assert!(app.show_help);
    app.update(key(KeyCode::Right));
    assert!(!app.show_help);
    assert_eq!(app.combat.as_ref().unwrap().cursor, (0, 0));
    app.update(key(KeyCode::Tab));
    assert!(app.show_stats);
    app.update(key(KeyCode::Tab));
    assert!(!app.show_stats);
}

#[test]
fn the_cursor_stays_on_the_board() {
    let mut app = in_combat();
    app.update(key(KeyCode::Up));
    app.update(key(KeyCode::Left));
    assert_eq!(app.combat.as_ref().unwrap().cursor, (0, 0));
    for _ in 0..10 {
        app.update(key(KeyCode::Down));
        app.update(key(KeyCode::Right));
    }
    assert_eq!(app.combat.as_ref().unwrap().cursor, (2, 4));
    app.update(key(KeyCode::Char(' ')));
    assert_eq!(app.combat.as_ref().unwrap().board.selection_count(), 1);
    app.update(key(KeyCode::Backspace));
    assert_eq!(app.combat.as_ref().unwrap().board.selection_count(), 0);
}

#[test]
fn short_and_unknown_words_are_refused() {
    let mut app = in_combat();
    spell(&mut app, "CA");
    let act = app.update(key(KeyCode::Enter));
    assert!(matches!(act, Action::Nothing));
    assert_eq!(last_log(&app), "Words must be at least 3 letters!");
    app.update(key(KeyCode::Esc));
    spell(&mut app, "CAX");
    app.update(key(KeyCode::Enter));
    assert_eq!(last_log(&app), "\"CAX\" is not a valid word!");
    assert_eq!(app.message_log.last().unwrap().color, LogColor::Warning);
}

#[test]
fn a_rule_of_the_enemy_can_refuse_a_word() {
    let mut app = in_combat();
    spell(&mut app, "CAT");
    app.combat.as_mut().unwrap().enemies[0].word_constraint =
        Some(lexicon_reaper::enemy::WordConstraint::MinLength(4));
    app.update(key(KeyCode::Enter));
    assert_eq!(last_log(&app), "\"CAT\" doesn't satisfy: 4+ letter words only!");
}

#[test]
fn an_accepted_word_lands_with_its_roll() {
    let mut app = in_combat();
    spell(&mut app, "CAT");
    let act = app.update(key(KeyCode::Enter));
    assert!(matches!(act, Action::RollDamage));
    let hp = app.combat.as_ref().unwrap().enemies[0].hp;
    let defense = app.combat.as_ref().unwrap().enemies[0].defense;
    let act = app.finish_word(roll(7));
    match act {
        Action::LookUp(w) => assert_eq!(w, "cat"),
        _ => panic!("the definition should be looked up"),
    }
    let dealt = std::cmp::max(7 - defense, 1);
    assert_eq!(app.combat.as_ref().unwrap().enemies[0].hp, std::cmp::max(hp - dealt, 0));
    assert_eq!(app.message_log.last().unwrap().text, format!("\"CAT\" deals {} damage!", dealt));
    assert_eq!(app.stats.words_submitted, 1);
    assert_eq!(app.stats.word_history, vec!["CAT".to_string()]);
    assert_eq!(
        phase(&app),
        CombatPhase::PlayerAttackAnim { damage: dealt, is_crit: false, word: "CAT".to_string(), ticks_remaining: 10 }
    );
}

#[test]
fn an_arrived_definition_is_logged_once() {
    let mut app = in_combat();
    spell(&mut app, "DOG");
    app.update(key(KeyCode::Enter));
    app.finish_word(roll(1));
    app.definitions.complete("dog", Some("(n.) a loyal animal".to_string()));
    app.update(Event::Tick);
    assert_eq!(last_log(&app), "  (n.) a loyal animal");
    let n = app.message_log.len();
    app.update(Event::Tick);
    assert_eq!(app.message_log.len(), n);
}

#[test]
fn a_bonus_turn_skips_the_enemy() {
    let mut app = in_combat();
    app.player.books.push(Book { kind: BookKind::Speed, level: 1, xp: 0 });
    spell(&mut app, "CAT");
    app.update(key(KeyCode::Enter));
    let damage = DamageResult { raw_damage: 1, is_crit: true, self_damage: 0, lifesteal: 0, bonus_turn: true };
    app.finish_word(damage);
    assert_eq!(phase(&app), CombatPhase::PlayerInput);
    assert_eq!(app.combat.as_ref().unwrap().turn_count, 1);
    assert_eq!(last_log(&app), "Speed book grants a bonus turn!");
    assert_eq!(app.stats.crits_landed, 1);
}

#[test]
fn a_bonus_turn_needs_a_book_of_speed() {
    let mut app = in_combat();
    spell(&mut app, "CAT");
    app.update(key(KeyCode::Enter));
    let damage = DamageResult { raw_damage: 1, is_crit: false, self_damage: 0, lifesteal: 0, bonus_turn: true };
    app.finish_word(damage);
    assert!(matches!(phase(&app), CombatPhase::PlayerAttackAnim { ticks_remaining: 10, .. }));
    assert_eq!(app.combat.as_ref().unwrap().turn_count, 0);
    assert!(app.message_log.iter().all(|m| m.text != "Speed book grants a bonus turn!"));
}

#[test]
fn animations_count_down_to_the_enemy_turn() {
    let mut app = in_combat();
    spell(&mut app, "CAT");
    app.update(key(KeyCode::Enter));
    app.finish_word(roll(1));
    for _ in 0..10 {
        app.update(Event::Tick);
    }
    assert!(matches!(phase(&app), CombatPhase::PlayerAttackAnim { ticks_remaining: 0, .. }));
    app.update(Event::Tick);
    assert_eq!(phase(&app), CombatPhase::EnemyTurn { ticks_remaining: 8 });
    app.player.dodge_permille = 0;
    app.player.weapon.kind = lexicon_reaper::equipment::WeaponKind::VenomScythe;
    for _ in 0..9 {
        app.update(Event::Tick);
    }
    match phase(&app) {
        CombatPhase::EnemyHitAnim { dodged, ticks_remaining, damage } => {
            assert!(!dodged);
            assert_eq!(ticks_remaining, 6);
            assert_eq!(app.player.hp, 100 - damage);
            assert_eq!(app.stats.total_damage_taken, damage as u64);
        }
        other => panic!("unexpected phase {:?}", other),
    }
    for _ in 0..7 {
        app.update(Event::Tick);
    }
    assert_eq!(phase(&app), CombatPhase::PlayerInput);
    assert_eq!(app.combat.as_ref().unwrap().turn_count, 1);
}

#[test]
fn a_won_stage_pays_out_saves_and_opens_the_map() {
    let mut app = in_combat();
    spell(&mut app, "CAT");
    app.combat.as_mut().unwrap().enemies[0].hp = 1;
    app.update(key(KeyCode::Enter));
    app.finish_word(roll(50));
    assert_eq!(phase(&app), CombatPhase::EnemyDefeated { ticks_remaining: 15 });
    for _ in 0..15 {
        app.update(Event::Tick);
    }
    let act = app.update(Event::Tick);
    assert!(matches!(act, Action::StageReward { was_boss: false }));
    app.begin_stage_victory(25);
    assert_eq!(app.stats.enemies_defeated, 1);
    assert_eq!(phase(&app), CombatPhase::StageVictory { gems_earned: 25, ticks_remaining: 20 });
    app.player.hp = 50;
    for _ in 0..20 {
        app.update(Event::Tick);
    }
    let act = app.update(Event::Tick);
    match act {
        Action::Save { player, stage_number, stats } => {
            assert_eq!(stage_number, 2);
            assert_eq!(player.gems, 25);
            assert_eq!(player.hp, 50);
            assert_eq!(stats.gems_earned, 25);
        }
        _ => panic!("the run should be saved"),
    }
    assert_eq!(last_log(&app), "Stage 1 complete! Earned 25 gems!");
    assert_eq!(app.current_screen(), Screen::StageMap);
    assert_eq!(app.player.hp, 61);
    assert!(app.combat.is_none());
}

#[test]
fn a_book_of_health_raises_max_hp_each_stage() {
    let mut app = in_combat();
    app.player.books.push(Book { kind: BookKind::Health, level: 2, xp: 0 });
    spell(&mut app, "CAT");
    app.combat.as_mut().unwrap().enemies[0].hp = 1;
    app.update(key(KeyCode::Enter));
    app.finish_word(roll(50));
    for _ in 0..16 {
        app.update(Event::Tick);
    }
    app.begin_stage_victory(25);
    app.player.hp = 95;
    for _ in 0..20 {
        app.update(Event::Tick);
    }
    let act = app.update(Event::Tick);
    match act {
        Action::Save { player, .. } => assert_eq!(player.max_hp, 110),
        _ => panic!("the run should be saved"),
    }
    assert_eq!(app.player.max_hp, 110);
    assert_eq!(app.player.hp, 106);
}

#[test]
fn the_shop_and_the_inventory() {
    let mut app = app();
    app.update(key(KeyCode::Enter));
    app.combat = None;
    app.screen = Screen::StageMap;
    app.update(key(KeyCode::Enter));
    assert_eq!(app.current_screen(), Screen::Shop);
    let shop = app.shop_state.as_ref().unwrap();
    assert_eq!(shop.items.len(), 7);
    assert_eq!(shop.selected_index, 0);
    app.update(key(KeyCode::Enter));
    assert_eq!(app.shop_state.as_ref().unwrap().message, Some("Can't buy that!".to_string()));
    app.player.gems = 100;
    app.update(key(KeyCode::Enter));
    assert_eq!(app.shop_state.as_ref().unwrap().message, Some("Bought Healing Potion!".to_string()));
    assert_eq!(app.player.gems, 70);
    assert_eq!(app.stats.gems_spent, 30);
    assert_eq!(app.player.potions, vec![Potion::Healing { power: 30 }, Potion::Healing { power: 31 }]);
    for _ in 0..10 {
        app.update(key(KeyCode::Down));
    }
    assert_eq!(app.shop_state.as_ref().unwrap().selected_index, 6);
    app.player.books.push(lexicon_reaper::equipment::Book::new(lexicon_reaper::equipment::BookKind::Speed));
    app.player.books.push(lexicon_reaper::equipment::Book::new(lexicon_reaper::equipment::BookKind::Wisdom));
    app.update(key(KeyCode::Char('i')));
    assert_eq!(app.current_screen(), Screen::Inventory);
    app.update(key(KeyCode::Down));
    assert_eq!(app.inventory_selection, 1);
    app.update(key(KeyCode::Delete));
    assert_eq!(app.player.books.len(), 1);
    assert_eq!(app.inventory_selection, 0);
    app.update(key(KeyCode::Esc));
    assert_eq!(app.current_screen(), Screen::Shop);
    app.update(key(KeyCode::Char('c')));
    assert_eq!(app.stage_number, 2);
    assert_eq!(app.current_screen(), Screen::Combat);
}

#[test]
fn potions_heal_and_purity_cleanses() {
    let mut app = in_combat();
    app.player.hp = 40;
    app.update(key(KeyCode::Char('p')));
    assert_eq!(app.player.hp, 70);
    assert_eq!(last_log(&app), "Healed for 30 HP!");
    assert_eq!(app.stats.potions_used, 1);
    app.update(key(KeyCode::Char('p')));
    assert_eq!(last_log(&app), "No potions available!");
    app.player.potions.push(Potion::Purity);
    app.combat.as_mut().unwrap().board.tile_mut(1, 1).effect = lexicon_reaper::tile::TileEffect::Spike;
    app.update(key(KeyCode::Char('P')));
    assert_eq!(last_log(&app), "All negative tile effects cleansed!");
    assert_eq!(app.combat.as_ref().unwrap().board.tile(1, 1).effect, lexicon_reaper::tile::TileEffect::Normal);
    app.player.potions.push(Potion::Lifesteal);
    app.update(key(KeyCode::Char('p')));
    assert!(app.combat.as_ref().unwrap().lifesteal_active);
}

#[test]
fn shuffling_costs_the_turn() {
    let mut app = in_combat();
    app.update(key(KeyCode::Char('s')));
    assert_eq!(phase(&app), CombatPhase::EnemyTurn { ticks_remaining: 8 });
    assert_eq!(app.stats.tiles_shuffled, 1);
    assert_eq!(last_log(&app), "Board shuffled! (turn used)");
    let n = app.message_log.len();
    app.update(key(KeyCode::Char('s')));
    assert_eq!(app.message_log.len(), n);
}

#[test]
fn a_refused_step_changes_nothing() {
    let mut app = in_combat();
    app.stats.tiles_shuffled = u32::MAX;
    let log_len = app.message_log.len();
    let act = app.update(key(KeyCode::Char('s')));
    assert!(matches!(act, Action::OutOfRange));
    assert_eq!(phase(&app), CombatPhase::PlayerInput);
    assert_eq!(app.message_log.len(), log_len);
    assert_eq!(app.stats.tiles_shuffled, u32::MAX);
}

#[test]
fn a_defeat_ends_the_run() {
    let mut app = in_combat();
    app.player.hp = 0;
    app.combat.as_mut().unwrap().phase = CombatPhase::EnemyHitAnim { damage: 9, dodged: false, ticks_remaining: 0 };
    app.update(Event::Tick);
    assert_eq!(phase(&app), CombatPhase::Defeat);
    assert_eq!(last_log(&app), "You have been defeated...");
    let act = app.update(Event::Tick);
    assert!(matches!(act, Action::DeleteSave));
    assert_eq!(app.current_screen(), Screen::GameOver);
    let act = app.update(key(KeyCode::Enter));
    assert!(matches!(act, Action::CheckSave));
    assert_eq!(app.current_screen(), Screen::Title);
}

#[test]
fn continuing_a_saved_run() {
    let mut app = App::new(Dictionary::new("cat"), true, ChaCha8Rng::seed_from_u64(42));
    let mut player = Player::new();
    player.gems = 77;
    let act = app.continue_game(LoadOutcome::Loaded { player, stage_number: 12, rng_seed: 5, stats: RunStats::default() });
    assert!(matches!(act, Action::Nothing));
    assert_eq!(app.stage_number, 12);
    assert_eq!(app.player.gems, 77);
    assert_eq!(app.message_log[0].text, "Game loaded!");
    assert_eq!(app.message_log[1].text, "--- Stage 12 | Ancient Crypt ---");
    assert_eq!(app.current_screen(), Screen::Combat);

    let mut app = App::new(Dictionary::new("cat"), true, ChaCha8Rng::seed_from_u64(42));
    let act = app.continue_game(LoadOutcome::Loaded {
        player: Player::new(),
        stage_number: 0,
        rng_seed: 5,
        stats: RunStats::default(),
    });
    assert!(matches!(act, Action::OutOfRange));
    assert_eq!(app.current_screen(), Screen::Title);

    let mut app = App::new(Dictionary::new("cat"), true, ChaCha8Rng::seed_from_u64(42));
    let act = app.continue_game(LoadOutcome::Failed("bad file".to_string()));
    assert!(matches!(act, Action::DeleteSave));
    assert_eq!(app.stage_number, 1);
    assert_eq!(app.current_screen(), Screen::Combat);
}

#[test]
fn walking_brings_on_the_next_foe() {
    let mut app = in_combat();
    let second = app.combat.as_ref().unwrap().enemies[0].clone();
    app.combat.as_mut().unwrap().enemies.push(second);
    app.combat.as_mut().unwrap().phase = CombatPhase::EnemyDefeated { ticks_remaining: 0 };
    app.update(Event::Tick);
    assert_eq!(last_log(&app), "Moving to next encounter...");
    assert_eq!(phase(&app), CombatPhase::Walking { ticks_remaining: 20 });
    for _ in 0..21 {
        app.update(Event::Tick);
    }
    assert_eq!(app.combat.as_ref().unwrap().current_enemy_idx, 1);
    assert!(last_log(&app).starts_with("A new foe appears: "));
    assert_eq!(phase(&app), CombatPhase::PlayerInput);
}
