use lexicon_reaper::enemy_gen::{generate_enemy, stage_can_generate};
use lexicon_reaper::equipment::{BookKind, Potion, WeaponKind};
use lexicon_reaper::player::Player;
use lexicon_reaper::shop::{buy_item, can_buy, cost_for_item, generate_shop_items, purchase_can_apply, ShopItem};
use lexicon_reaper::stage::{generate_stage, Biome};
use lexicon_reaper::stats::RunStats;
use rand::SeedableRng;
use rand_chacha::ChaCha8Rng;

#[test]
fn the_first_shop_offers_the_basics() {
    let p = Player::new();
    let items = generate_shop_items(1, &p);
    assert_eq!(
        items,
        vec![
            ShopItem::BuyPotion(Potion::Healing { power: 31 }),
            ShopItem::UpgradeWeapon,
            ShopItem::UpgradeHp,
            ShopItem::UpgradeAttack,
            ShopItem::UpgradeArmor,
            ShopItem::UpgradeDodge,
            ShopItem::UpgradePotionCapacity,
        ]
    );
}

#[test]
fn later_shops_offer_more() {
    let p = Player::new();
    let items = generate_shop_items(20, &p);
    assert!(items.contains(&ShopItem::BuyWeapon(WeaponKind::GiantScythe)));
    assert!(items.contains(&ShopItem::BuyBook(BookKind::Purity)));
    assert!(items.contains(&ShopItem::BuyPotion(Potion::Lifesteal)));
    assert_eq!(items[0], ShopItem::BuyPotion(Potion::Healing { power: 50 }));
}

#[test]
fn item_names_and_descriptions() {
    assert_eq!(ShopItem::BuyWeapon(WeaponKind::VenomScythe).name(), "Buy Venom Scythe");
    assert_eq!(ShopItem::BuyBook(BookKind::Wisdom).name(), "Buy Book of Wisdom");
    assert_eq!(ShopItem::UpgradeDodge.name(), "Dodge +2%");
    assert_eq!(ShopItem::UpgradeArmor.description(), "Permanently reduce damage taken");
    assert_eq!(ShopItem::BuyPotion(Potion::Purity).description(), "Single-use consumable");
}

#[test]
fn prices_grow_with_upgrades() {
    let mut p = Player::new();
    assert_eq!(cost_for_item(&ShopItem::UpgradeHp, &p), 80);
    p.upgrades.hp_level = 2;
    assert_eq!(cost_for_item(&ShopItem::UpgradeHp, &p), 120);
    assert_eq!(cost_for_item(&ShopItem::UpgradeWeapon, &p), 200);
    assert_eq!(cost_for_item(&ShopItem::BuyBook(BookKind::Wealth), &p), 200);
}

#[test]
fn buying_pays_and_applies() {
    let mut p = Player::new();
    p.gems = 500;
    assert!(can_buy(&ShopItem::UpgradeHp, &p));
    assert!(purchase_can_apply(&ShopItem::UpgradeHp, &p));
    assert_eq!(buy_item(&ShopItem::UpgradeHp, &mut p), Some("Max HP is now 110!".to_string()));
    assert_eq!((p.gems, p.max_hp, p.hp, p.upgrades.hp_level), (420, 110, 110, 1));
    assert_eq!(
        buy_item(&ShopItem::UpgradeWeapon, &mut p),
        Some("Basic Scythe upgraded to Lv2!".to_string())
    );
    assert_eq!(p.gems, 220);
    assert_eq!(buy_item(&ShopItem::UpgradeDodge, &mut p), Some("Dodge is now 7%!".to_string()));
    assert_eq!(p.dodge_permille, 70);
    assert_eq!(p.gems, 70);
}

#[test]
fn buying_what_cannot_be_afforded_changes_nothing() {
    let mut p = Player::new();
    p.gems = 10;
    assert!(!can_buy(&ShopItem::UpgradeAttack, &p));
    assert_eq!(buy_item(&ShopItem::UpgradeAttack, &mut p), None);
    assert_eq!(p.gems, 10);
    assert_eq!(p.base_attack, 5);
}

#[test]
fn a_full_potion_bag_refuses_another_potion() {
    let mut p = Player::new();
    p.gems = 1000;
    assert_eq!(
        buy_item(&ShopItem::BuyPotion(Potion::Purity), &mut p),
        Some("Bought Purity Potion!".to_string())
    );
    buy_item(&ShopItem::BuyPotion(Potion::Purity), &mut p);
    assert_eq!(p.potions.len(), 3);
    assert_eq!(buy_item(&ShopItem::BuyPotion(Potion::Purity), &mut p), None);
    assert_eq!(p.potions.len(), 3);
}

#[test]
fn biomes_change_every_ten_stages_and_cycle() {
    assert_eq!(Biome::from_stage(1), Biome::Forest);
    assert_eq!(Biome::from_stage(10), Biome::Forest);
    assert_eq!(Biome::from_stage(11), Biome::Crypt);
    assert_eq!(Biome::from_stage(41), Biome::Void);
    assert_eq!(Biome::from_stage(51), Biome::Forest);
    assert_eq!(Biome::Volcano.name(), "Molten Cavern");
}

#[test]
fn every_tenth_stage_is_a_single_boss() {
    let mut rng = ChaCha8Rng::seed_from_u64(3);
    let boss = generate_stage(&mut rng, 10);
    assert_eq!(boss.enemies.len(), 1);
    assert!(boss.enemies[0].is_boss);
    assert_eq!(boss.enemies[0].hp, (30 + 80) * 3);
    for stage in [1u32, 2, 5, 12, 33] {
        let s = generate_stage(&mut rng, stage);
        assert!(!s.enemies.is_empty());
        assert!(s.enemies.iter().all(|e| !e.is_boss));
        if stage <= 3 {
            assert_eq!(s.enemies.len(), 1);
        }
        assert_eq!(s.enemies[0].hp, 30 + 8 * stage as i32);
    }
}

#[test]
fn enemies_scale_with_the_stage() {
    let mut rng = ChaCha8Rng::seed_from_u64(9);
    let e = generate_enemy(&mut rng, 25, Biome::Crypt, false);
    assert_eq!(e.hp, 230);
    assert_eq!(e.max_hp, 230);
    assert_eq!(e.attack, 17);
    assert_eq!(e.defense, 2);
    assert!(stage_can_generate(1));
    assert!(!stage_can_generate(4_000_000_000));
}

#[test]
fn the_word_history_keeps_the_latest_twenty() {
    let mut s = RunStats::default();
    for i in 0..25 {
        s.record_word(&format!("W{}", i), 3, i % 2 == 0);
    }
    assert_eq!(s.word_history.len(), 20);
    assert_eq!(s.word_history[0], "W5");
    assert_eq!(s.word_history[19], "W24");
    assert_eq!(s.words_submitted, 25);
    assert_eq!(s.crits_landed, 13);
    assert_eq!(s.total_damage_dealt, 75);
}

#[test]
fn the_longest_and_strongest_words_are_kept() {
    let mut s = RunStats::default();
    s.record_word("CAT", 5, false);
    s.record_word("HORSES", 4, false);
    s.record_word("OX", 9, true);
    assert_eq!(s.longest_word, "HORSES");
    assert_eq!(s.highest_damage_word, "OX");
    assert_eq!(s.highest_damage, 9);
    s.record_enemy_defeated(true);
    s.record_damage_taken(7);
    s.record_dodge();
    assert_eq!((s.enemies_defeated, s.bosses_defeated, s.total_damage_taken, s.dodges), (1, 1, 7, 1));
    let copy = s.snapshot();
    assert_eq!(copy.word_history, s.word_history);
    assert_eq!(copy.longest_word, s.longest_word);
}

#[test]
fn word_rules_grow_with_the_stage() {
    assert_eq!(lexicon_reaper::enemy_gen::constraint_odds(5), 1);
    assert_eq!(lexicon_reaper::enemy_gen::constraint_odds(9), 5);
    assert_eq!(lexicon_reaper::enemy_gen::constraint_odds(40), 10);
    assert_eq!(lexicon_reaper::enemy_gen::rule_pool(6, 0).len(), 3);
    let pool = lexicon_reaper::enemy_gen::rule_pool(20, 3);
    assert_eq!(pool.len(), 5);
    assert_eq!(pool[3], lexicon_reaper::enemy::WordConstraint::MinLength(5));
    assert_eq!(pool[4], lexicon_reaper::enemy::WordConstraint::MustContainLetter('O'));
}

fn players() -> Vec<Player> {
    let fresh = Player::new();
    let mut rich = Player::new();
    rich.gems = 1000;
    let mut maxed = Player::new();
    maxed.gems = 5000;
    maxed.weapon.level = 10;
    maxed.upgrades.dodge_level = 5;
    maxed.upgrades.potion_capacity_level = 3;
    maxed.max_potions = 6;
    for kind in [BookKind::Strength, BookKind::Health, BookKind::Speed] {
        maxed.books.push(lexicon_reaper::equipment::Book::new(kind));
    }
    vec![fresh, rich, maxed]
}

#[test]
fn shops_keep_their_shape_across_stages() {
    for p in players() {
        for stage in 1..25u32 {
            let items = generate_shop_items(stage, &p);
            assert_eq!(items[0], ShopItem::BuyPotion(Potion::Healing { power: 30 + stage as i32 }));
            for basic in [ShopItem::UpgradeHp, ShopItem::UpgradeAttack, ShopItem::UpgradeArmor] {
                assert!(items.contains(&basic));
            }
            for x in &items {
                if !matches!(x, ShopItem::BuyPotion(_)) {
                    assert_eq!(can_buy(x, &p), p.gems >= cost_for_item(x, &p));
                }
            }
            for later in stage..25u32 {
                let more = generate_shop_items(later, &p);
                for x in &items[1..] {
                    assert!(more.contains(x));
                }
            }
        }
    }
}

#[test]
fn buying_keeps_the_shop_bounds() {
    let all = generate_shop_items(25, &Player::new());
    for start in players() {
        for item in &all {
            let mut p = start.clone();
            for _ in 0..12 {
                if purchase_can_apply(item, &p) {
                    buy_item(item, &mut p);
                }
                assert!(p.weapon.level <= 10);
                assert!(p.books.len() <= 3);
                assert!(p.potions.len() <= p.max_potions);
                assert!(p.upgrades.dodge_level <= 5);
                assert!(p.upgrades.potion_capacity_level <= 3);
            }
        }
    }
}
