use lexicon_reaper::board::Board;
use lexicon_reaper::combat::{
    enemy_turn_can_resolve, resolve_enemy_turn, resolve_player_word, word_can_resolve, DamageResult,
};
use lexicon_reaper::enemy::{test_enemy, EnemyAbility};
use lexicon_reaper::equipment::{Book, BookKind, Weapon, WeaponKind};
use lexicon_reaper::player::Player;
use lexicon_reaper::tile::TileEffect;
use rand::SeedableRng;
use rand_chacha::ChaCha8Rng;

fn roll(raw: i32) -> DamageResult {
    DamageResult { raw_damage: raw, is_crit: false, self_damage: 0, lifesteal: 0, bonus_turn: false }
}

fn spelled(word: &str, rng: &mut ChaCha8Rng) -> Board {
    let mut board = Board::new(rng);
    for (i, ch) in word.chars().enumerate() {
        board.tile_mut(0, i).letter = ch;
        board.toggle_select(0, i);
    }
    board
}

#[test]
fn a_word_hits_through_defense() {
    let mut rng = ChaCha8Rng::seed_from_u64(1);
    let mut board = spelled("CAT", &mut rng);
    let mut player = Player::new();
    let mut enemy = test_enemy();
    enemy.defense = 2;
    assert!(word_can_resolve(&board, &player, &enemy, roll(12), false));
    let r = resolve_player_word(&mut board, &mut player, &mut enemy, &mut rng, false, roll(12));
    assert_eq!(r.word, "CAT");
    assert_eq!(r.damage_dealt, 10);
    assert_eq!(enemy.hp, 40);
    assert!(!r.enemy_defeated);
    assert_eq!(r.potion_lifesteal, 0);
    assert_eq!(board.selection_count(), 0);
}

#[test]
fn self_damage_lifesteal_and_the_potion_apply_in_order() {
    let mut rng = ChaCha8Rng::seed_from_u64(2);
    let mut board = spelled("DOG", &mut rng);
    let mut player = Player::new();
    player.hp = 50;
    player.armor = 1;
    player.books.push(Book { kind: BookKind::Speed, level: 1, xp: 0 });
    let mut enemy = test_enemy();
    enemy.hp = 20;
    let damage = DamageResult { raw_damage: 20, is_crit: true, self_damage: 5, lifesteal: 3, bonus_turn: true };
    let r = resolve_player_word(&mut board, &mut player, &mut enemy, &mut rng, true, damage);
    assert_eq!(r.damage_dealt, 20);
    assert!(r.enemy_defeated);
    assert_eq!(r.lifesteal, 3);
    assert_eq!(r.potion_lifesteal, 10);
    assert!(r.is_crit && r.bonus_turn);
    assert_eq!(player.hp, 50 - 4 + 3 + 10);
    assert_eq!(enemy.hp, 0);
}

#[test]
fn lifesteal_waits_for_a_kill_and_a_bonus_turn_for_a_book_of_speed() {
    let mut rng = ChaCha8Rng::seed_from_u64(2);
    let mut board = spelled("DOG", &mut rng);
    let mut player = Player::new();
    player.hp = 50;
    player.armor = 1;
    player.weapon = Weapon { kind: WeaponKind::VampireScythe, level: 3 };
    let mut enemy = test_enemy();
    let damage = DamageResult { raw_damage: 20, is_crit: false, self_damage: 5, lifesteal: 3, bonus_turn: true };
    let r = resolve_player_word(&mut board, &mut player, &mut enemy, &mut rng, true, damage);
    assert!(!r.enemy_defeated);
    assert_eq!(r.lifesteal, 0);
    assert!(!r.bonus_turn);
    assert_eq!(player.hp, 50 - 4 + 10);
    assert_eq!(enemy.hp, 30);
}

#[test]
fn a_book_of_purity_cleanses_one_tile_at_most() {
    let mut cleansed_seen = false;
    for seed in 0..200u64 {
        let mut rng = ChaCha8Rng::seed_from_u64(seed);
        let mut board = spelled("CAT", &mut rng);
        for c in 0..5 {
            board.tile_mut(1, c).effect = TileEffect::Poison;
            board.tile_mut(1, c).timer = Some(3);
        }
        let before = board.clone();
        let mut player = Player::new();
        player.books.push(Book { kind: BookKind::Purity, level: 4, xp: 0 });
        let mut enemy = test_enemy();
        let r = resolve_player_word(&mut board, &mut player, &mut enemy, &mut rng, false, roll(1));
        let mut changed = 0;
        for row in 0..3 {
            for col in 0..5 {
                let was = before.tile(row, col);
                if !was.selected && board.tile(row, col) != was {
                    changed += 1;
                    assert_eq!(board.tile(row, col).effect, TileEffect::Normal);
                    assert_eq!(board.tile(row, col).timer, None);
                }
            }
        }
        if r.purity_cleansed {
            cleansed_seen = true;
            assert_eq!(changed, 1);
        } else {
            assert_eq!(changed, 0);
        }
    }
    assert!(cleansed_seen);
}

#[test]
fn a_venom_scythe_adds_to_poisoned_letters() {
    let mut rng = ChaCha8Rng::seed_from_u64(3);
    let mut board = Board::new(&mut rng);
    for i in 0..3 {
        board.tile_mut(0, i).letter = 'A';
        board.tile_mut(0, i).effect = TileEffect::Poison;
        board.toggle_select(0, i);
    }
    let mut player = Player::new();
    player.weapon = Weapon { kind: WeaponKind::VenomScythe, level: 2 };
    let mut enemy = test_enemy();
    let r = resolve_player_word(&mut board, &mut player, &mut enemy, &mut rng, false, roll(5));
    assert_eq!(r.venom_bonus, 18);
    assert_eq!(r.damage_dealt, 23);
    assert_eq!(enemy.hp, 27);
}

#[test]
fn books_gain_experience_and_health_heals() {
    let mut rng = ChaCha8Rng::seed_from_u64(4);
    let mut board = spelled("ANT", &mut rng);
    let mut player = Player::new();
    player.hp = 60;
    player.books.push(Book { kind: BookKind::Health, level: 1, xp: 9 });
    let mut enemy = test_enemy();
    resolve_player_word(&mut board, &mut player, &mut enemy, &mut rng, false, roll(1));
    assert_eq!(player.books[0], Book { kind: BookKind::Health, level: 2, xp: 0 });
    assert_eq!(player.hp, 62);
}

#[test]
fn a_killing_blow_defeats_the_enemy() {
    let mut rng = ChaCha8Rng::seed_from_u64(5);
    let mut board = spelled("AXE", &mut rng);
    let mut player = Player::new();
    let mut enemy = test_enemy();
    let r = resolve_player_word(&mut board, &mut player, &mut enemy, &mut rng, false, roll(80));
    assert!(r.enemy_defeated);
    assert_eq!(enemy.hp, 0);
}

#[test]
fn a_certain_dodge_and_a_certain_hit() {
    let mut rng = ChaCha8Rng::seed_from_u64(6);
    let mut board = Board::new(&mut rng);
    let mut player = Player::new();
    player.dodge_permille = 1000;
    let mut enemy = test_enemy();
    assert!(enemy_turn_can_resolve(&board, &player, &enemy));
    let r = resolve_enemy_turn(&mut board, &mut player, &mut enemy, &mut rng);
    assert!(r.dodged);
    assert_eq!(r.damage_dealt, 0);
    assert_eq!(player.hp, 100);

    player.dodge_permille = 0;
    player.weapon = Weapon { kind: WeaponKind::VenomScythe, level: 1 };
    player.armor = 3;
    let r = resolve_enemy_turn(&mut board, &mut player, &mut enemy, &mut rng);
    assert!(!r.dodged);
    assert_eq!(r.damage_dealt, 5);
    assert_eq!(player.hp, 95);
}

#[test]
fn enemy_abilities_are_used_in_order() {
    let mut rng = ChaCha8Rng::seed_from_u64(7);
    let mut board = Board::new(&mut rng);
    let mut player = Player::new();
    player.dodge_permille = 1000;
    let mut enemy = test_enemy();
    enemy.hp = 40;
    enemy.abilities = vec![
        EnemyAbility::HealSelf { amount: 15 },
        EnemyAbility::Enrage { bonus_attack: 2 },
        EnemyAbility::ApplyEffect { effect: TileEffect::Spike, count: 2, timer: 3 },
    ];
    let r = resolve_enemy_turn(&mut board, &mut player, &mut enemy, &mut rng);
    assert_eq!(enemy.hp, 50);
    assert_eq!(r.healed, 15);
    assert_eq!(enemy.attack, 10);
    assert_eq!(
        r.abilities_used,
        vec![
            "Healed for 15 HP!".to_string(),
            "Enraged! +2 attack!".to_string(),
            "Applied Spike to 2 tiles!".to_string(),
        ]
    );
    let spikes = (0..15).filter(|k| board.tile(k / 5, k % 5).effect == TileEffect::Spike).count();
    assert_eq!(spikes, 2);
    let timers: Vec<_> = (0..15)
        .map(|k| *board.tile(k / 5, k % 5))
        .filter(|t| t.effect == TileEffect::Spike)
        .map(|t| t.timer)
        .collect();
    assert_eq!(timers, vec![Some(2), Some(2)]);
}

#[test]
fn rolls_that_leave_the_integer_types_are_refused() {
    let mut rng = ChaCha8Rng::seed_from_u64(8);
    let board = spelled("CAT", &mut rng);
    let mut player = Player::new();
    let mut enemy = test_enemy();
    assert!(word_can_resolve(&board, &player, &enemy, roll(i32::MAX), false));
    enemy.hp = i32::MIN + 1;
    assert!(!word_can_resolve(&board, &player, &enemy, roll(10), false));
    enemy.hp = 50;
    enemy.attack = i32::MIN;
    player.armor = 1;
    assert!(!enemy_turn_can_resolve(&board, &player, &enemy));
}
