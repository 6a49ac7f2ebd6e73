use lexicon_reaper::enemy::{test_enemy, WordConstraint};
use lexicon_reaper::equipment::{settle_checked, Book, BookKind, Potion, Weapon, WeaponKind};
use lexicon_reaper::player::Player;

#[test]
fn books_level_up_as_experience_pays_for_it() {
    let mut b = Book::new(BookKind::Strength);
    assert_eq!(b.xp_to_next_level(), 10);
    b.add_xp(9);
    assert_eq!((b.level, b.xp), (1, 9));
    b.add_xp(1);
    assert_eq!((b.level, b.xp), (2, 0));
    assert_eq!(b.xp_to_next_level(), 40);
    b.add_xp(95);
    assert_eq!((b.level, b.xp), (3, 55));
}

#[test]
fn experience_is_never_lost_when_levelling() {
    let mut b = Book::new(BookKind::Health);
    b.add_xp(60);
    assert_eq!((b.level, b.xp), (3, 10));
    assert_eq!(settle_checked(1, 60), Some((3, 10)));
    assert_eq!(settle_checked(0, 5), Some((1, 5)));
    assert_eq!(settle_checked(20000, 0), Some((20000, 0)));
    assert_eq!(settle_checked(30000, 0), None);
}

#[test]
fn equipment_names_and_prices() {
    let w = Weapon { kind: WeaponKind::VenomScythe, level: 1 };
    assert_eq!(w.name(), "Venom Scythe");
    assert_eq!(w.upgrade_cost(), 200);
    assert_eq!(Weapon { kind: WeaponKind::BasicScythe, level: 3 }.upgrade_cost(), 800);
    assert_eq!(Weapon::buy_cost(&WeaponKind::GiantScythe), 350);
    assert_eq!(Book::new(BookKind::Wealth).name(), "Book of Wealth");
    assert_eq!(Book::new(BookKind::Speed).short_name(), "SPD");
    assert_eq!(Book::buy_cost(&BookKind::Health), 80);
    assert_eq!(Potion::Lifesteal.name(), "Lifesteal Potion");
    assert_eq!(Potion::Healing { power: 5 }.buy_cost(), 30);
}

#[test]
fn a_new_player() {
    let p = Player::new();
    assert_eq!((p.hp, p.max_hp, p.base_attack, p.armor), (100, 100, 5, 0));
    assert_eq!((p.dodge_permille, p.crit_permille, p.crit_multiplier_percent), (50, 100, 150));
    assert_eq!(p.weapon, Weapon { kind: WeaponKind::BasicScythe, level: 1 });
    assert_eq!(p.potions, vec![Potion::Healing { power: 30 }]);
    assert!(p.books.is_empty());
    assert_eq!(p.max_potions, 3);
}

#[test]
fn armor_softens_blows_but_never_below_one() {
    let mut p = Player::new();
    p.armor = 4;
    assert_eq!(p.take_damage(10), 6);
    assert_eq!(p.hp, 94);
    assert_eq!(p.take_damage(2), 1);
    assert_eq!(p.hp, 93);
    assert_eq!(p.take_damage(500), 496);
    assert_eq!(p.hp, 0);
    assert!(!p.is_alive());
}

#[test]
fn healing_stops_at_maximum() {
    let mut p = Player::new();
    p.hp = 95;
    p.heal(20);
    assert_eq!(p.hp, 100);
}

#[test]
fn potions_are_used_up() {
    let mut p = Player::new();
    p.hp = 50;
    assert_eq!(p.use_potion(0), Some("Healed for 30 HP!".to_string()));
    assert_eq!(p.hp, 80);
    assert!(!p.has_potions());
    assert_eq!(p.use_potion(0), None);
    p.potions.push(Potion::Purity);
    assert_eq!(p.use_potion(0), Some("Cleansed all tile effects!".to_string()));
    p.potions.push(Potion::Lifesteal);
    assert_eq!(p.use_potion(0), Some("Next word heals for damage dealt!".to_string()));
}

#[test]
fn enemies_take_damage_through_defense() {
    let mut e = test_enemy();
    assert_eq!(e.name, "Forest Goblin");
    e.defense = 3;
    assert_eq!(e.take_damage(10), 7);
    assert_eq!(e.hp, 43);
    assert_eq!(e.take_damage(1), 1);
    e.heal(100);
    assert_eq!(e.hp, 50);
    assert_eq!(e.take_damage(1000), 997);
    assert_eq!(e.hp, 0);
    assert!(!e.is_alive());
}

#[test]
fn word_rules_check_words_and_describe_themselves() {
    assert!(WordConstraint::MinLength(5).check("apple"));
    assert!(!WordConstraint::MinLength(5).check("pear"));
    assert_eq!(WordConstraint::MinLength(5).description(), "5+ letter words only!");
    assert!(WordConstraint::MaxLength(4).check("pear"));
    assert!(!WordConstraint::MaxLength(4).check("apple"));
    assert_eq!(WordConstraint::MaxLength(4).description(), "4 letters max!");
    assert!(WordConstraint::MustStartWithVowel.check("apple"));
    assert!(!WordConstraint::MustStartWithVowel.check("pear"));
    assert_eq!(WordConstraint::MustStartWithVowel.description(), "Must start with a vowel!");
    assert!(WordConstraint::MustContainLetter('r').check("PEAR"));
    assert!(!WordConstraint::MustContainLetter('z').check("pear"));
    assert_eq!(WordConstraint::MustContainLetter('z').description(), "Must contain 'Z'!");
    assert!(WordConstraint::NoRepeatedLetters.check("pear"));
    assert!(!WordConstraint::NoRepeatedLetters.check("apple"));
    assert_eq!(WordConstraint::NoRepeatedLetters.description(), "No repeated letters!");
}

fn earned_before(level: u32) -> u64 {
    (1..level as u64).map(|i| 10 * i * i).sum()
}

#[test]
fn experience_is_never_lost_in_levelling() {
    for (level, xp, amount) in [(1u32, 0u32, 1000u32), (2, 5, 39), (3, 80, 7), (1, 9, 1), (4, 0, 100000)] {
        let mut b = Book { kind: BookKind::Wisdom, level, xp };
        b.add_xp(amount);
        assert!(b.level >= level);
        assert!(b.xp < b.xp_to_next_level());
        assert_eq!(earned_before(b.level) + b.xp as u64, earned_before(level) + xp as u64 + amount as u64);
        assert_eq!(b.kind, BookKind::Wisdom);
    }
    let mut b = Book::new(BookKind::Speed);
    b.add_xp(1000);
    assert_eq!((b.level, b.xp), (7, 90));
}
