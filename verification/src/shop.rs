//! The shop between stages: what it offers, what things cost, and buying.

use crate::equipment::{
    book_name, book_price, potion_name, potion_price, upgrade_price, weapon_name, weapon_price, Book,
    BookKind, Potion, Weapon, WeaponKind,
};
use crate::player::Player;
use crate::text::{decimal, int_to_string, join, join3, uint_to_string};
use vstd::prelude::*;

verus! {

#[derive(Debug, Clone, Copy, PartialEq, Eq, Structural)]
pub enum ShopItem {
    BuyWeapon(WeaponKind),
    UpgradeWeapon,
    BuyBook(BookKind),
    BuyPotion(Potion),
    UpgradeHp,
    UpgradeAttack,
    UpgradeArmor,
    UpgradeDodge,
    UpgradePotionCapacity,
}

pub open spec fn item_name(item: ShopItem) -> Seq<char> {
    match item {
        ShopItem::BuyWeapon(kind) => "Buy "@ + weapon_name(kind),
        ShopItem::UpgradeWeapon => "Upgrade Weapon"@,
        ShopItem::BuyBook(kind) => "Buy "@ + book_name(kind),
        ShopItem::BuyPotion(p) => "Buy "@ + potion_name(p),
        ShopItem::UpgradeHp => "Max HP +10"@,
        ShopItem::UpgradeAttack => "Attack +2"@,
        ShopItem::UpgradeArmor => "Armor +1"@,
        ShopItem::UpgradeDodge => "Dodge +2%"@,
        ShopItem::UpgradePotionCapacity => "Potion Slots +1"@,
    }
}

pub open spec fn item_description(item: ShopItem) -> Seq<char> {
    match item {
        ShopItem::BuyWeapon(WeaponKind::BasicScythe) => "Basic weapon, +dodge chance"@,
        ShopItem::BuyWeapon(WeaponKind::VenomScythe) => "Bonus from poison tiles"@,
        ShopItem::BuyWeapon(WeaponKind::CrystalScythe) => "Higher crystal tile spawn"@,
        ShopItem::BuyWeapon(WeaponKind::ThunderScythe) => "High damage + crit bonus"@,
        ShopItem::BuyWeapon(WeaponKind::VampireScythe) => "Lifesteal on kills"@,
        ShopItem::BuyWeapon(WeaponKind::GiantScythe) => "Huge bonus for 6+ letter words"@,
        ShopItem::UpgradeWeapon => "Increase weapon level by 1"@,
        ShopItem::BuyBook(BookKind::Strength) => "+flat damage per word"@,
        ShopItem::BuyBook(BookKind::Wisdom) => "+bonus for rare letters"@,
        ShopItem::BuyBook(BookKind::Health) => "+max HP each stage"@,
        ShopItem::BuyBook(BookKind::Speed) => "Chance for free extra turn"@,
        ShopItem::BuyBook(BookKind::Purity) => "Chance to cleanse bad tiles"@,
        ShopItem::BuyBook(BookKind::Wealth) => "+gem drops from enemies"@,
        ShopItem::BuyPotion(_) => "Single-use consumable"@,
        ShopItem::UpgradeHp => "Permanently increase max HP"@,
        ShopItem::UpgradeAttack => "Permanently increase base attack"@,
        ShopItem::UpgradeArmor => "Permanently reduce damage taken"@,
        ShopItem::UpgradeDodge => "Permanently increase dodge chance"@,
        ShopItem::UpgradePotionCapacity => "Carry one more potion"@,
    }
}

impl ShopItem {
    pub fn name(&self) -> (r: String)
        ensures
            r@ == item_name(*self),
    {
        match self {
            ShopItem::BuyWeapon(kind) => {
                let w = Weapon { kind: *kind, level: 1 };
                join("Buy ", w.name())
            },
            ShopItem::UpgradeWeapon => String::from_str("Upgrade Weapon"),
            ShopItem::BuyBook(kind) => {
                let b = Book::new(*kind);
                join("Buy ", b.name())
            },
            ShopItem::BuyPotion(p) => join("Buy ", p.name()),
            ShopItem::UpgradeHp => String::from_str("Max HP +10"),
            ShopItem::UpgradeAttack => String::from_str("Attack +2"),
            ShopItem::UpgradeArmor => String::from_str("Armor +1"),
            ShopItem::UpgradeDodge => String::from_str("Dodge +2%"),
            ShopItem::UpgradePotionCapacity => String::from_str("Potion Slots +1"),
        }
    }

    pub fn description(&self) -> (r: &'static str)
        ensures
            r@ == item_description(*self),
    {
        match self {
            ShopItem::BuyWeapon(WeaponKind::BasicScythe) => "Basic weapon, +dodge chance",
            ShopItem::BuyWeapon(WeaponKind::VenomScythe) => "Bonus from poison tiles",
            ShopItem::BuyWeapon(WeaponKind::CrystalScythe) => "Higher crystal tile spawn",
            ShopItem::BuyWeapon(WeaponKind::ThunderScythe) => "High damage + crit bonus",
            ShopItem::BuyWeapon(WeaponKind::VampireScythe) => "Lifesteal on kills",
            ShopItem::BuyWeapon(WeaponKind::GiantScythe) => "Huge bonus for 6+ letter words",
            ShopItem::UpgradeWeapon => "Increase weapon level by 1",
            ShopItem::BuyBook(BookKind::Strength) => "+flat damage per word",
            ShopItem::BuyBook(BookKind::Wisdom) => "+bonus for rare letters",
            ShopItem::BuyBook(BookKind::Health) => "+max HP each stage",
            ShopItem::BuyBook(BookKind::Speed) => "Chance for free extra turn",
            ShopItem::BuyBook(BookKind::Purity) => "Chance to cleanse bad tiles",
            ShopItem::BuyBook(BookKind::Wealth) => "+gem drops from enemies",
            ShopItem::BuyPotion(_) => "Single-use consumable",
            ShopItem::UpgradeHp => "Permanently increase max HP",
            ShopItem::UpgradeAttack => "Permanently increase base attack",
            ShopItem::UpgradeArmor => "Permanently reduce damage taken",
            ShopItem::UpgradeDodge => "Permanently increase dodge chance",
            ShopItem::UpgradePotionCapacity => "Carry one more potion",
        }
    }
}

/// What an item costs this player.
pub open spec fn item_price(item: ShopItem, player: Player) -> int {
    match item {
        ShopItem::BuyWeapon(kind) => weapon_price(kind) as int,
        ShopItem::UpgradeWeapon => upgrade_price(player.weapon.level as int),
        ShopItem::BuyBook(kind) => book_price(kind) as int,
        ShopItem::BuyPotion(p) => potion_price(p) as int,
        ShopItem::UpgradeHp => 80 + 20 * player.upgrades.hp_level,
        ShopItem::UpgradeAttack => 100 + 30 * player.upgrades.attack_level,
        ShopItem::UpgradeArmor => 120 + 40 * player.upgrades.armor_level,
        ShopItem::UpgradeDodge => 150 + 50 * player.upgrades.dodge_level,
        ShopItem::UpgradePotionCapacity => 100 + 80 * player.upgrades.potion_capacity_level,
    }
}

/// Whether the player can afford the item and has room for it.
pub open spec fn affordable(item: ShopItem, player: Player) -> bool {
    &&& player.gems >= item_price(item, player)
    &&& match item {
        ShopItem::BuyPotion(_) => player.potions@.len() < player.max_potions,
        ShopItem::BuyBook(_) => player.books@.len() < 3,
        ShopItem::UpgradeWeapon => player.weapon.level < 10,
        ShopItem::UpgradeDodge => player.upgrades.dodge_level < 5,
        ShopItem::UpgradePotionCapacity => player.upgrades.potion_capacity_level < 3,
        _ => true,
    }
}

/// The price can be computed without overflow.
pub open spec fn price_fits(item: ShopItem, player: Player) -> bool {
    item is UpgradeWeapon ==> upgrade_price(player.weapon.level as int) <= u64::MAX
}

/// The purchase can be applied without overflow.
pub open spec fn purchase_fits(item: ShopItem, player: Player) -> bool {
    &&& price_fits(item, player)
    &&& match item {
        ShopItem::UpgradeHp => player.max_hp + 10 <= i32::MAX && player.hp + 10 <= i32::MAX
            && player.upgrades.hp_level < u32::MAX,
        ShopItem::UpgradeAttack => player.base_attack + 2 <= i32::MAX && player.upgrades.attack_level
            < u32::MAX,
        ShopItem::UpgradeArmor => player.armor + 1 <= i32::MAX && player.upgrades.armor_level < u32::MAX,
        ShopItem::UpgradeDodge => player.dodge_permille + 20 <= u32::MAX,
        ShopItem::UpgradePotionCapacity => player.max_potions < usize::MAX,
        _ => true,
    }
}

/// The player after paying for and receiving the item.
pub open spec fn after_purchase(item: ShopItem, p: Player) -> Player {
    let paid = Player { gems: (p.gems - item_price(item, p)) as u64, ..p };
    match item {
        ShopItem::BuyWeapon(kind) => Player { weapon: Weapon { kind, level: 1 }, ..paid },
        ShopItem::UpgradeWeapon => Player {
            weapon: Weapon { level: (p.weapon.level + 1) as u32, ..p.weapon },
            ..paid
        },
        ShopItem::BuyBook(kind) => paid,
        ShopItem::BuyPotion(potion) => paid,
        ShopItem::UpgradeHp => Player {
            max_hp: (p.max_hp + 10) as i32,
            hp: (p.hp + 10) as i32,
            upgrades: crate::player::PlayerUpgrades { hp_level: (p.upgrades.hp_level + 1) as u32, ..p.upgrades },
            ..paid
        },
        ShopItem::UpgradeAttack => Player {
            base_attack: (p.base_attack + 2) as i32,
            upgrades: crate::player::PlayerUpgrades {
                attack_level: (p.upgrades.attack_level + 1) as u32,
                ..p.upgrades
            },
            ..paid
        },
        ShopItem::UpgradeArmor => Player {
            armor: (p.armor + 1) as i32,
            upgrades: crate::player::PlayerUpgrades { armor_level: (p.upgrades.armor_level + 1) as u32, ..p.upgrades },
            ..paid
        },
        ShopItem::UpgradeDodge => Player {
            dodge_permille: (p.dodge_permille + 20) as u32,
            upgrades: crate::player::PlayerUpgrades { dodge_level: (p.upgrades.dodge_level + 1) as u32, ..p.upgrades },
            ..paid
        },
        ShopItem::UpgradePotionCapacity => Player {
            max_potions: (p.max_potions + 1) as usize,
            upgrades: crate::player::PlayerUpgrades {
                potion_capacity_level: (p.upgrades.potion_capacity_level + 1) as u32,
                ..p.upgrades
            },
            ..paid
        },
    }
}

/// The player's books after buying the item.
pub open spec fn books_after(item: ShopItem, p: Player) -> Seq<Book> {
    match item {
        ShopItem::BuyBook(kind) => p.books@.push(Book { kind, level: 1, xp: 0 }),
        _ => p.books@,
    }
}

/// The player's potions after buying the item.
pub open spec fn potions_after(item: ShopItem, p: Player) -> Seq<Potion> {
    match item {
        ShopItem::BuyPotion(potion) => p.potions@.push(potion),
        _ => p.potions@,
    }
}

/// What a purchase reports, given the player after it.
pub open spec fn purchase_message(item: ShopItem, after: Player) -> Seq<char> {
    match item {
        ShopItem::BuyWeapon(kind) => "Equipped "@ + weapon_name(kind) + "!"@,
        ShopItem::UpgradeWeapon => weapon_name(after.weapon.kind) + " upgraded to Lv"@ + decimal(
            after.weapon.level as int,
        ) + "!"@,
        ShopItem::BuyBook(kind) => "Acquired "@ + book_name(kind) + "!"@,
        ShopItem::BuyPotion(potion) => "Bought "@ + potion_name(potion) + "!"@,
        ShopItem::UpgradeHp => "Max HP is now "@ + decimal(after.max_hp as int) + "!"@,
        ShopItem::UpgradeAttack => "Attack is now "@ + decimal(after.base_attack as int) + "!"@,
        ShopItem::UpgradeArmor => "Armor is now "@ + decimal(after.armor as int) + "!"@,
        ShopItem::UpgradeDodge => "Dodge is now "@ + decimal((after.dodge_permille / 10) as int) + "%!"@,
        ShopItem::UpgradePotionCapacity => "Can now carry "@ + decimal(after.max_potions as int)
            + " potions!"@,
    }
}

pub fn cost_for_item(item: &ShopItem, player: &Player) -> (r: u64)
    requires
        price_fits(*item, *player),
    ensures
        r == item_price(*item, *player),
{
    match item {
        ShopItem::BuyWeapon(kind) => Weapon::buy_cost(kind),
        ShopItem::UpgradeWeapon => player.weapon.upgrade_cost(),
        ShopItem::BuyBook(kind) => Book::buy_cost(kind),
        ShopItem::BuyPotion(p) => p.buy_cost(),
        ShopItem::UpgradeHp => 80 + 20 * player.upgrades.hp_level as u64,
        ShopItem::UpgradeAttack => 100 + 30 * player.upgrades.attack_level as u64,
        ShopItem::UpgradeArmor => 120 + 40 * player.upgrades.armor_level as u64,
        ShopItem::UpgradeDodge => 150 + 50 * player.upgrades.dodge_level as u64,
        ShopItem::UpgradePotionCapacity => 100 + 80 * player.upgrades.potion_capacity_level as u64,
    }
}

pub fn can_buy(item: &ShopItem, player: &Player) -> (r: bool)
    requires
        price_fits(*item, *player),
    ensures
        r == affordable(*item, *player),
{
    let cost = cost_for_item(item, player);
    if player.gems < cost {
        return false;
    }
    match item {
        ShopItem::BuyPotion(_) => player.potions.len() < player.max_potions,
        ShopItem::BuyBook(_) => player.books.len() < 3,
        ShopItem::UpgradeWeapon => player.weapon.level < 10,
        ShopItem::UpgradeDodge => player.upgrades.dodge_level < 5,
        ShopItem::UpgradePotionCapacity => player.upgrades.potion_capacity_level < 3,
        _ => true,
    }
}

/// Whether the item's price can be worked out within `u64`.
pub fn price_can_compute(item: &ShopItem, player: &Player) -> (r: bool)
    ensures
        r == price_fits(*item, *player),
{
    match item {
        ShopItem::UpgradeWeapon => {
            let l: u128 = player.weapon.level as u128 + 1;
            proof {
                assert(l * l <= 0x1_0000_0000 * 0x1_0000_0000) by (nonlinear_arith)
                    requires
                        l <= 0x1_0000_0000,
                ;
            }
            let price: u128 = 50 * (l * l);
            assert(price == upgrade_price(player.weapon.level as int)) by (nonlinear_arith)
                requires
                    price == 50 * (l * l),
                    l == player.weapon.level + 1,
            ;
            price <= 0xffff_ffff_ffff_ffff
        },
        _ => true,
    }
}

/// Whether buying the item can be applied without leaving the integer types.
pub fn purchase_can_apply(item: &ShopItem, player: &Player) -> (r: bool)
    ensures
        r == purchase_fits(*item, *player),
{
    price_can_compute(item, player) && match item {
        ShopItem::UpgradeHp => player.max_hp <= 0x7fff_fff5 && player.hp <= 0x7fff_fff5
            && player.upgrades.hp_level < 0xffff_ffff,
        ShopItem::UpgradeAttack => player.base_attack <= 0x7fff_fffd && player.upgrades.attack_level
            < 0xffff_ffff,
        ShopItem::UpgradeArmor => player.armor < 0x7fff_ffff && player.upgrades.armor_level < 0xffff_ffff,
        ShopItem::UpgradeDodge => player.dodge_permille <= 0xffff_ffeb,
        ShopItem::UpgradePotionCapacity => player.max_potions < usize::MAX,
        _ => true,
    }
}

/// Buys the item if the player can: pays its price, applies it and says
/// what happened. `None`, with the player untouched, when they cannot.
pub fn buy_item(item: &ShopItem, player: &mut Player) -> (r: Option<String>)
    requires
        purchase_fits(*item, *old(player)),
    ensures
        r is Some <==> affordable(*item, *old(player)),
        r is None ==> *final(player) == *old(player),
        r is Some ==> {
            let p = *old(player);
            let after = after_purchase(*item, p);
            &&& final(player).hp == after.hp
            &&& final(player).max_hp == after.max_hp
            &&& final(player).base_attack == after.base_attack
            &&& final(player).armor == after.armor
            &&& final(player).dodge_permille == after.dodge_permille
            &&& final(player).crit_permille == after.crit_permille
            &&& final(player).crit_multiplier_percent == after.crit_multiplier_percent
            &&& final(player).gems == after.gems
            &&& final(player).weapon == after.weapon
            &&& final(player).max_potions == after.max_potions
            &&& final(player).upgrades == after.upgrades
            &&& final(player).books@ == books_after(*item, p)
            &&& final(player).potions@ == potions_after(*item, p)
            &&& r->0@ == purchase_message(*item, *final(player))
        },
        r is Some ==> {
            let p = *old(player);
            let q = *final(player);
            &&& *item == ShopItem::UpgradeHp ==> q.max_hp == p.max_hp + 10 && q.hp == p.hp + 10
            &&& *item == ShopItem::UpgradeAttack ==> q.base_attack == p.base_attack + 2
            &&& *item == ShopItem::UpgradeArmor ==> q.armor == p.armor + 1
            &&& *item == ShopItem::UpgradeDodge ==> q.dodge_permille == p.dodge_permille + 20
            &&& *item == ShopItem::UpgradePotionCapacity ==> q.max_potions == p.max_potions + 1
            &&& *item == ShopItem::UpgradeWeapon ==> q.weapon == (Weapon { level: (p.weapon.level + 1) as u32, ..p.weapon })
            &&& *item matches ShopItem::BuyWeapon(k) ==> q.weapon == (Weapon { kind: k, level: 1 })
        },
{
    let cost = cost_for_item(item, player);
    if !can_buy(item, player) {
        return None;
    }
    player.gems = player.gems - cost;
    match item {
        ShopItem::BuyWeapon(kind) => {
            player.weapon = Weapon { kind: *kind, level: 1 };
            Some(join3("Equipped ", player.weapon.name(), "!"))
        },
        ShopItem::UpgradeWeapon => {
            player.weapon.level = player.weapon.level + 1;
            let lv = uint_to_string(player.weapon.level as u64);
            let head = join3(player.weapon.name(), " upgraded to Lv", lv.as_str());
            Some(join(head.as_str(), "!"))
        },
        ShopItem::BuyBook(kind) => {
            let book = Book::new(*kind);
            let name = book.name();
            player.books.push(book);
            Some(join3("Acquired ", name, "!"))
        },
        ShopItem::BuyPotion(potion) => {
            let name = potion.name();
            player.potions.push(*potion);
            Some(join3("Bought ", name, "!"))
        },
        ShopItem::UpgradeHp => {
            player.max_hp = player.max_hp + 10;
            player.hp = player.hp + 10;
            player.upgrades.hp_level = player.upgrades.hp_level + 1;
            let n = int_to_string(player.max_hp as i64);
            Some(join3("Max HP is now ", n.as_str(), "!"))
        },
        ShopItem::UpgradeAttack => {
            player.base_attack = player.base_attack + 2;
            player.upgrades.attack_level = player.upgrades.attack_level + 1;
            let n = int_to_string(player.base_attack as i64);
            Some(join3("Attack is now ", n.as_str(), "!"))
        },
        ShopItem::UpgradeArmor => {
            player.armor = player.armor + 1;
            player.upgrades.armor_level = player.upgrades.armor_level + 1;
            let n = int_to_string(player.armor as i64);
            Some(join3("Armor is now ", n.as_str(), "!"))
        },
        ShopItem::UpgradeDodge => {
            player.dodge_permille = player.dodge_permille + 20;
            player.upgrades.dodge_level = player.upgrades.dodge_level + 1;
            let n = uint_to_string((player.dodge_permille / 10) as u64);
            Some(join3("Dodge is now ", n.as_str(), "%!"))
        },
        ShopItem::UpgradePotionCapacity => {
            player.max_potions = player.max_potions + 1;
            player.upgrades.potion_capacity_level = player.upgrades.potion_capacity_level + 1;
            let n = uint_to_string(player.max_potions as u64);
            Some(join3("Can now carry ", n.as_str(), " potions!"))
        },
    }
}

/// `item` when `cond` holds, nothing otherwise.
pub open spec fn offer_if(cond: bool, item: ShopItem) -> Seq<ShopItem> {
    if cond {
        seq![item]
    } else {
        Seq::empty()
    }
}

/// What the shop offers at a stage: potions, weapons and books that unlock
/// with the stage, and the stat upgrades that are not maxed out.
pub open spec fn shop_offer(stage: int, p: Player) -> Seq<ShopItem> {
    let books_open = p.books@.len() < 3;
    Seq::<ShopItem>::empty().push(ShopItem::BuyPotion(Potion::Healing { power: (30 + stage) as i32 }))
        + offer_if(stage >= 3, ShopItem::BuyPotion(Potion::Purity))
        + offer_if(stage >= 5, ShopItem::BuyPotion(Potion::Lifesteal))
        + offer_if(p.weapon.level < 10, ShopItem::UpgradeWeapon)
        + offer_if(stage >= 5, ShopItem::BuyWeapon(WeaponKind::VenomScythe))
        + offer_if(stage >= 8, ShopItem::BuyWeapon(WeaponKind::CrystalScythe))
        + offer_if(stage >= 12, ShopItem::BuyWeapon(WeaponKind::ThunderScythe))
        + offer_if(stage >= 15, ShopItem::BuyWeapon(WeaponKind::VampireScythe))
        + offer_if(stage >= 20, ShopItem::BuyWeapon(WeaponKind::GiantScythe))
        + offer_if(books_open && stage >= 3, ShopItem::BuyBook(BookKind::Strength))
        + offer_if(books_open && stage >= 6, ShopItem::BuyBook(BookKind::Health))
        + offer_if(books_open && stage >= 10, ShopItem::BuyBook(BookKind::Wisdom))
        + offer_if(books_open && stage >= 12, ShopItem::BuyBook(BookKind::Wealth))
        + offer_if(books_open && stage >= 15, ShopItem::BuyBook(BookKind::Speed))
        + offer_if(books_open && stage >= 18, ShopItem::BuyBook(BookKind::Purity))
        + offer_if(true, ShopItem::UpgradeHp)
        + offer_if(true, ShopItem::UpgradeAttack)
        + offer_if(true, ShopItem::UpgradeArmor)
        + offer_if(p.upgrades.dodge_level < 5, ShopItem::UpgradeDodge)
        + offer_if(p.upgrades.potion_capacity_level < 3, ShopItem::UpgradePotionCapacity)
}

fn push_if(items: &mut Vec<ShopItem>, cond: bool, item: ShopItem)
    ensures
        final(items)@ == old(items)@ + offer_if(cond, item),
{
    if cond {
        items.push(item);
    }
    proof {
        assert(final(items)@ =~= old(items)@ + offer_if(cond, item));
    }
}

/// Generate shop inventory based on stage
pub fn generate_shop_items(stage: u32, player: &Player) -> (items: Vec<ShopItem>)
    requires
        stage + 30 <= i32::MAX,
    ensures
        items@ == shop_offer(stage as int, *player),
        items@.contains(ShopItem::BuyWeapon(WeaponKind::VenomScythe)) == (stage >= 5),
        items@.contains(ShopItem::BuyWeapon(WeaponKind::CrystalScythe)) == (stage >= 8),
        items@.contains(ShopItem::BuyWeapon(WeaponKind::ThunderScythe)) == (stage >= 12),
        items@.contains(ShopItem::BuyWeapon(WeaponKind::VampireScythe)) == (stage >= 15),
        items@.contains(ShopItem::BuyWeapon(WeaponKind::GiantScythe)) == (stage >= 20),
{
    let mut items: Vec<ShopItem> = Vec::new();
    items.push(ShopItem::BuyPotion(Potion::Healing { power: 30 + stage as i32 }));
    push_if(&mut items, stage >= 3, ShopItem::BuyPotion(Potion::Purity));
    push_if(&mut items, stage >= 5, ShopItem::BuyPotion(Potion::Lifesteal));
    push_if(&mut items, player.weapon.level < 10, ShopItem::UpgradeWeapon);
    push_if(&mut items, stage >= 5, ShopItem::BuyWeapon(WeaponKind::VenomScythe));
    push_if(&mut items, stage >= 8, ShopItem::BuyWeapon(WeaponKind::CrystalScythe));
    push_if(&mut items, stage >= 12, ShopItem::BuyWeapon(WeaponKind::ThunderScythe));
    push_if(&mut items, stage >= 15, ShopItem::BuyWeapon(WeaponKind::VampireScythe));
    push_if(&mut items, stage >= 20, ShopItem::BuyWeapon(WeaponKind::GiantScythe));
    let books_open = player.books.len() < 3;
    push_if(&mut items, books_open && stage >= 3, ShopItem::BuyBook(BookKind::Strength));
    push_if(&mut items, books_open && stage >= 6, ShopItem::BuyBook(BookKind::Health));
    push_if(&mut items, books_open && stage >= 10, ShopItem::BuyBook(BookKind::Wisdom));
    push_if(&mut items, books_open && stage >= 12, ShopItem::BuyBook(BookKind::Wealth));
    push_if(&mut items, books_open && stage >= 15, ShopItem::BuyBook(BookKind::Speed));
    push_if(&mut items, books_open && stage >= 18, ShopItem::BuyBook(BookKind::Purity));
    push_if(&mut items, true, ShopItem::UpgradeHp);
    push_if(&mut items, true, ShopItem::UpgradeAttack);
    push_if(&mut items, true, ShopItem::UpgradeArmor);
    push_if(&mut items, player.upgrades.dodge_level < 5, ShopItem::UpgradeDodge);
    push_if(&mut items, player.upgrades.potion_capacity_level < 3, ShopItem::UpgradePotionCapacity);
    proof {
        law_weapons_unlock_with_the_stage(stage as int, *player, items@);
    }
    items
}

proof fn lemma_offer_if_contains(cond: bool, item: ShopItem, x: ShopItem)
    ensures
        offer_if(cond, item).contains(x) <==> cond && x == item,
{
    if cond {
        assert(offer_if(cond, item)[0] == item);
    }
}

/// Whether `x` is among what the shop offers at `stage`, the healing potion
/// aside.
pub open spec fn offered_beyond_healing(stage: int, p: Player, x: ShopItem) -> bool {
    let books_open = p.books@.len() < 3;
    ||| stage >= 3 && x == ShopItem::BuyPotion(Potion::Purity)
    ||| stage >= 5 && x == ShopItem::BuyPotion(Potion::Lifesteal)
    ||| p.weapon.level < 10 && x == ShopItem::UpgradeWeapon
    ||| stage >= 5 && x == ShopItem::BuyWeapon(WeaponKind::VenomScythe)
    ||| stage >= 8 && x == ShopItem::BuyWeapon(WeaponKind::CrystalScythe)
    ||| stage >= 12 && x == ShopItem::BuyWeapon(WeaponKind::ThunderScythe)
    ||| stage >= 15 && x == ShopItem::BuyWeapon(WeaponKind::VampireScythe)
    ||| stage >= 20 && x == ShopItem::BuyWeapon(WeaponKind::GiantScythe)
    ||| books_open && stage >= 3 && x == ShopItem::BuyBook(BookKind::Strength)
    ||| books_open && stage >= 6 && x == ShopItem::BuyBook(BookKind::Health)
    ||| books_open && stage >= 10 && x == ShopItem::BuyBook(BookKind::Wisdom)
    ||| books_open && stage >= 12 && x == ShopItem::BuyBook(BookKind::Wealth)
    ||| books_open && stage >= 15 && x == ShopItem::BuyBook(BookKind::Speed)
    ||| books_open && stage >= 18 && x == ShopItem::BuyBook(BookKind::Purity)
    ||| x == ShopItem::UpgradeHp
    ||| x == ShopItem::UpgradeAttack
    ||| x == ShopItem::UpgradeArmor
    ||| p.upgrades.dodge_level < 5 && x == ShopItem::UpgradeDodge
    ||| p.upgrades.potion_capacity_level < 3 && x == ShopItem::UpgradePotionCapacity
}

proof fn lemma_shop_offer_contains(stage: int, p: Player, x: ShopItem)
    ensures
        shop_offer(stage, p).contains(x) <==> x == ShopItem::BuyPotion(Potion::Healing { power: (30 + stage) as i32 })
            || offered_beyond_healing(stage, p, x),
{
    let books_open = p.books@.len() < 3;
    let s0 = Seq::<ShopItem>::empty().push(ShopItem::BuyPotion(Potion::Healing { power: (30 + stage) as i32 }));
    vstd::seq_lib::lemma_seq_contains_after_push(Seq::<ShopItem>::empty(), ShopItem::BuyPotion(Potion::Healing { power: (30 + stage) as i32 }), x);
    let s1 = s0 + offer_if(stage >= 3, ShopItem::BuyPotion(Potion::Purity));
    vstd::seq_lib::lemma_seq_concat_contains_all_elements(s0, offer_if(stage >= 3, ShopItem::BuyPotion(Potion::Purity)), x);
    lemma_offer_if_contains(stage >= 3, ShopItem::BuyPotion(Potion::Purity), x);
    let s2 = s1 + offer_if(stage >= 5, ShopItem::BuyPotion(Potion::Lifesteal));
    vstd::seq_lib::lemma_seq_concat_contains_all_elements(s1, offer_if(stage >= 5, ShopItem::BuyPotion(Potion::Lifesteal)), x);
    lemma_offer_if_contains(stage >= 5, ShopItem::BuyPotion(Potion::Lifesteal), x);
    let s3 = s2 + offer_if(p.weapon.level < 10, ShopItem::UpgradeWeapon);
    vstd::seq_lib::lemma_seq_concat_contains_all_elements(s2, offer_if(p.weapon.level < 10, ShopItem::UpgradeWeapon), x);
    lemma_offer_if_contains(p.weapon.level < 10, ShopItem::UpgradeWeapon, x);
    let s4 = s3 + offer_if(stage >= 5, ShopItem::BuyWeapon(WeaponKind::VenomScythe));
    vstd::seq_lib::lemma_seq_concat_contains_all_elements(s3, offer_if(stage >= 5, ShopItem::BuyWeapon(WeaponKind::VenomScythe)), x);
    lemma_offer_if_contains(stage >= 5, ShopItem::BuyWeapon(WeaponKind::VenomScythe), x);
    let s5 = s4 + offer_if(stage >= 8, ShopItem::BuyWeapon(WeaponKind::CrystalScythe));
    vstd::seq_lib::lemma_seq_concat_contains_all_elements(s4, offer_if(stage >= 8, ShopItem::BuyWeapon(WeaponKind::CrystalScythe)), x);
    lemma_offer_if_contains(stage >= 8, ShopItem::BuyWeapon(WeaponKind::CrystalScythe), x);
    let s6 = s5 + offer_if(stage >= 12, ShopItem::BuyWeapon(WeaponKind::ThunderScythe));
    vstd::seq_lib::lemma_seq_concat_contains_all_elements(s5, offer_if(stage >= 12, ShopItem::BuyWeapon(WeaponKind::ThunderScythe)), x);
    lemma_offer_if_contains(stage >= 12, ShopItem::BuyWeapon(WeaponKind::ThunderScythe), x);
    let s7 = s6 + offer_if(stage >= 15, ShopItem::BuyWeapon(WeaponKind::VampireScythe));
    vstd::seq_lib::lemma_seq_concat_contains_all_elements(s6, offer_if(stage >= 15, ShopItem::BuyWeapon(WeaponKind::VampireScythe)), x);
    lemma_offer_if_contains(stage >= 15, ShopItem::BuyWeapon(WeaponKind::VampireScythe), x);
    let s8 = s7 + offer_if(stage >= 20, ShopItem::BuyWeapon(WeaponKind::GiantScythe));
    vstd::seq_lib::lemma_seq_concat_contains_all_elements(s7, offer_if(stage >= 20, ShopItem::BuyWeapon(WeaponKind::GiantScythe)), x);
    lemma_offer_if_contains(stage >= 20, ShopItem::BuyWeapon(WeaponKind::GiantScythe), x);
    let s9 = s8 + offer_if(books_open && stage >= 3, ShopItem::BuyBook(BookKind::Strength));
    vstd::seq_lib::lemma_seq_concat_contains_all_elements(s8, offer_if(books_open && stage >= 3, ShopItem::BuyBook(BookKind::Strength)), x);
    lemma_offer_if_contains(books_open && stage >= 3, ShopItem::BuyBook(BookKind::Strength), x);
    let s10 = s9 + offer_if(books_open && stage >= 6, ShopItem::BuyBook(BookKind::Health));
    vstd::seq_lib::lemma_seq_concat_contains_all_elements(s9, offer_if(books_open && stage >= 6, ShopItem::BuyBook(BookKind::Health)), x);
    lemma_offer_if_contains(books_open && stage >= 6, ShopItem::BuyBook(BookKind::Health), x);
    let s11 = s10 + offer_if(books_open && stage >= 10, ShopItem::BuyBook(BookKind::Wisdom));
    vstd::seq_lib::lemma_seq_concat_contains_all_elements(s10, offer_if(books_open && stage >= 10, ShopItem::BuyBook(BookKind::Wisdom)), x);
    lemma_offer_if_contains(books_open && stage >= 10, ShopItem::BuyBook(BookKind::Wisdom), x);
    let s12 = s11 + offer_if(books_open && stage >= 12, ShopItem::BuyBook(BookKind::Wealth));
    vstd::seq_lib::lemma_seq_concat_contains_all_elements(s11, offer_if(books_open && stage >= 12, ShopItem::BuyBook(BookKind::Wealth)), x);
    lemma_offer_if_contains(books_open && stage >= 12, ShopItem::BuyBook(BookKind::Wealth), x);
    let s13 = s12 + offer_if(books_open && stage >= 15, ShopItem::BuyBook(BookKind::Speed));
    vstd::seq_lib::lemma_seq_concat_contains_all_elements(s12, offer_if(books_open && stage >= 15, ShopItem::BuyBook(BookKind::Speed)), x);
    lemma_offer_if_contains(books_open && stage >= 15, ShopItem::BuyBook(BookKind::Speed), x);
    let s14 = s13 + offer_if(books_open && stage >= 18, ShopItem::BuyBook(BookKind::Purity));
    vstd::seq_lib::lemma_seq_concat_contains_all_elements(s13, offer_if(books_open && stage >= 18, ShopItem::BuyBook(BookKind::Purity)), x);
    lemma_offer_if_contains(books_open && stage >= 18, ShopItem::BuyBook(BookKind::Purity), x);
    let s15 = s14 + offer_if(true, ShopItem::UpgradeHp);
    vstd::seq_lib::lemma_seq_concat_contains_all_elements(s14, offer_if(true, ShopItem::UpgradeHp), x);
    lemma_offer_if_contains(true, ShopItem::UpgradeHp, x);
    let s16 = s15 + offer_if(true, ShopItem::UpgradeAttack);
    vstd::seq_lib::lemma_seq_concat_contains_all_elements(s15, offer_if(true, ShopItem::UpgradeAttack), x);
    lemma_offer_if_contains(true, ShopItem::UpgradeAttack, x);
    let s17 = s16 + offer_if(true, ShopItem::UpgradeArmor);
    vstd::seq_lib::lemma_seq_concat_contains_all_elements(s16, offer_if(true, ShopItem::UpgradeArmor), x);
    lemma_offer_if_contains(true, ShopItem::UpgradeArmor, x);
    let s18 = s17 + offer_if(p.upgrades.dodge_level < 5, ShopItem::UpgradeDodge);
    vstd::seq_lib::lemma_seq_concat_contains_all_elements(s17, offer_if(p.upgrades.dodge_level < 5, ShopItem::UpgradeDodge), x);
    lemma_offer_if_contains(p.upgrades.dodge_level < 5, ShopItem::UpgradeDodge, x);
    let s19 = s18 + offer_if(p.upgrades.potion_capacity_level < 3, ShopItem::UpgradePotionCapacity);
    vstd::seq_lib::lemma_seq_concat_contains_all_elements(s18, offer_if(p.upgrades.potion_capacity_level < 3, ShopItem::UpgradePotionCapacity), x);
    lemma_offer_if_contains(p.upgrades.potion_capacity_level < 3, ShopItem::UpgradePotionCapacity, x);
    assert(shop_offer(stage, p) == s19);
}

/// Across stages the shop keeps its shape: it opens with a healing potion
/// of thirty plus the stage in power and always offers the upgrades of
/// health, attack and armor; whatever else it offers, the player can buy
/// exactly when the gems cover its price; and everything it offers beside
/// that potion is offered again at every later stage.
pub proof fn law_shop_offer_across_stages(stage: int, later: int, p: Player, x: ShopItem)
    requires
        stage <= later,
    ensures
        shop_offer(stage, p)[0] == ShopItem::BuyPotion(Potion::Healing { power: (30 + stage) as i32 }),
        shop_offer(stage, p).contains(ShopItem::UpgradeHp),
        shop_offer(stage, p).contains(ShopItem::UpgradeAttack),
        shop_offer(stage, p).contains(ShopItem::UpgradeArmor),
        shop_offer(stage, p).contains(x) && !(x is BuyPotion) ==> (affordable(x, p) <==> p.gems >= item_price(x, p)),
        shop_offer(stage, p).contains(x) && x != shop_offer(stage, p)[0] ==> shop_offer(later, p).contains(x),
{
    lemma_shop_offer_contains(stage, p, x);
    lemma_shop_offer_contains(later, p, x);
    lemma_shop_offer_contains(stage, p, ShopItem::UpgradeHp);
    lemma_shop_offer_contains(stage, p, ShopItem::UpgradeAttack);
    lemma_shop_offer_contains(stage, p, ShopItem::UpgradeArmor);
    let head = Seq::<ShopItem>::empty().push(ShopItem::BuyPotion(Potion::Healing { power: (30 + stage) as i32 }));
    assert(head[0] == ShopItem::BuyPotion(Potion::Healing { power: (30 + stage) as i32 }));
}

/// Buying what the player can afford costs exactly its price.
pub proof fn law_purchase_pays_price(item: ShopItem, p: Player)
    requires
        affordable(item, p),
    ensures
        after_purchase(item, p).gems == p.gems - item_price(item, p),
{
}

/// A purchase never takes the player past three books or past the potion
/// bag's capacity.
pub proof fn law_purchase_respects_capacity(item: ShopItem, p: Player)
    requires
        affordable(item, p),
        purchase_fits(item, p),
        p.books@.len() <= 3,
        p.potions@.len() <= p.max_potions,
    ensures
        books_after(item, p).len() <= 3,
        potions_after(item, p).len() <= after_purchase(item, p).max_potions,
{
}

/// The bounds the shop keeps: a weapon of level at most ten, at most three
/// books, no more potions than the bag holds, at most five dodge upgrades
/// and at most three extra potion slots.
pub open spec fn within_shop_bounds(p: Player) -> bool {
    &&& p.weapon.level <= 10
    &&& p.books@.len() <= 3
    &&& p.potions@.len() <= p.max_potions
    &&& p.upgrades.dodge_level <= 5
    &&& p.upgrades.potion_capacity_level <= 3
}

/// Buying keeps a player within the shop's bounds, whatever the item: a
/// purchase the player cannot make changes nothing, and one they can make
/// changes them as `buy_item` says.
pub proof fn law_purchase_keeps_bounds(item: ShopItem, p: Player, q: Player)
    requires
        within_shop_bounds(p),
        purchase_fits(item, p),
        affordable(item, p) ==> {
            let after = after_purchase(item, p);
            &&& q.weapon == after.weapon
            &&& q.upgrades == after.upgrades
            &&& q.max_potions == after.max_potions
            &&& q.books@ == books_after(item, p)
            &&& q.potions@ == potions_after(item, p)
        },
        !affordable(item, p) ==> q == p,
    ensures
        within_shop_bounds(q),
{
}

/// What each purchase does, when the player can make it: the stat
/// upgrades raise maximum health (and health) by 10, attack by 2, armor by
/// 1, dodge by 2 percentage points and the potion bag by one slot, each
/// costing its base price plus a step per upgrade already bought; a weapon
/// upgrade raises the level by one, a new weapon starts at level 1, a book
/// joins the shelf at level 1 and a potion joins the bag. Nothing else
/// about the player changes but the gems paid.
pub proof fn law_purchase_effects(item: ShopItem, p: Player)
    requires
        affordable(item, p),
        purchase_fits(item, p),
    ensures
        ({
            let q = after_purchase(item, p);
            let u = p.upgrades;
            &&& item == ShopItem::UpgradeHp ==> q.max_hp == p.max_hp + 10 && q.hp == p.hp + 10
                && q.upgrades.hp_level == u.hp_level + 1 && q.gems == p.gems - (80 + 20 * u.hp_level)
            &&& item == ShopItem::UpgradeAttack ==> q.base_attack == p.base_attack + 2 && q.upgrades.attack_level
                == u.attack_level + 1 && q.gems == p.gems - (100 + 30 * u.attack_level)
            &&& item == ShopItem::UpgradeArmor ==> q.armor == p.armor + 1 && q.upgrades.armor_level == u.armor_level
                + 1 && q.gems == p.gems - (120 + 40 * u.armor_level)
            &&& item == ShopItem::UpgradeDodge ==> q.dodge_permille == p.dodge_permille + 20
                && q.upgrades.dodge_level == u.dodge_level + 1 && q.gems == p.gems - (150 + 50 * u.dodge_level)
            &&& item == ShopItem::UpgradePotionCapacity ==> q.max_potions == p.max_potions + 1
                && q.upgrades.potion_capacity_level == u.potion_capacity_level + 1 && q.gems == p.gems - (100 + 80
                * u.potion_capacity_level)
            &&& item == ShopItem::UpgradeWeapon ==> q.weapon.kind == p.weapon.kind && q.weapon.level
                == p.weapon.level + 1 && q.gems == p.gems - 50 * (p.weapon.level + 1) * (p.weapon.level + 1)
            &&& item matches ShopItem::BuyWeapon(k) ==> q.weapon.kind == k && q.weapon.level == 1
            &&& item matches ShopItem::BuyBook(k) ==> books_after(item, p) == p.books@.push(
                Book { kind: k, level: 1, xp: 0 },
            )
            &&& item matches ShopItem::BuyPotion(po) ==> potions_after(item, p) == p.potions@.push(po)
            &&& item != ShopItem::UpgradeHp ==> q.hp == p.hp && q.max_hp == p.max_hp
            &&& item != ShopItem::UpgradeAttack ==> q.base_attack == p.base_attack
            &&& item != ShopItem::UpgradeArmor ==> q.armor == p.armor
            &&& item != ShopItem::UpgradeDodge ==> q.dodge_permille == p.dodge_permille
            &&& item != ShopItem::UpgradePotionCapacity ==> q.max_potions == p.max_potions
            &&& q.crit_permille == p.crit_permille
            &&& q.crit_multiplier_percent == p.crit_multiplier_percent
        }),
{
}

/// The weapons unlock with the stage and stay on offer: the venom scythe
/// from stage 5, the crystal scythe from 8, the thunder scythe from 12,
/// the vampire scythe from 15 and the giant scythe from 20; the basic
/// scythe is never sold. `items` is the shop's offer at `stage`.
pub proof fn law_weapons_unlock_with_the_stage(stage: int, p: Player, items: Seq<ShopItem>)
    requires
        items == shop_offer(stage, p),
    ensures
        items.contains(ShopItem::BuyWeapon(WeaponKind::VenomScythe)) == (stage >= 5),
        items.contains(ShopItem::BuyWeapon(WeaponKind::CrystalScythe)) == (stage >= 8),
        items.contains(ShopItem::BuyWeapon(WeaponKind::ThunderScythe)) == (stage >= 12),
        items.contains(ShopItem::BuyWeapon(WeaponKind::VampireScythe)) == (stage >= 15),
        items.contains(ShopItem::BuyWeapon(WeaponKind::GiantScythe)) == (stage >= 20),
        !items.contains(ShopItem::BuyWeapon(WeaponKind::BasicScythe)),
        items.contains(ShopItem::BuyPotion(Potion::Purity)) == (stage >= 3),
        items.contains(ShopItem::BuyPotion(Potion::Lifesteal)) == (stage >= 5),
        p.books@.len() < 3 ==> items.contains(ShopItem::BuyBook(BookKind::Strength)) == (stage >= 3),
        p.books@.len() < 3 ==> items.contains(ShopItem::BuyBook(BookKind::Health)) == (stage >= 6),
        p.books@.len() < 3 ==> items.contains(ShopItem::BuyBook(BookKind::Wisdom)) == (stage >= 10),
        p.books@.len() < 3 ==> items.contains(ShopItem::BuyBook(BookKind::Wealth)) == (stage >= 12),
        p.books@.len() < 3 ==> items.contains(ShopItem::BuyBook(BookKind::Speed)) == (stage >= 15),
        p.books@.len() < 3 ==> items.contains(ShopItem::BuyBook(BookKind::Purity)) == (stage >= 18),
        p.books@.len() >= 3 ==> forall|k: BookKind| !items.contains(ShopItem::BuyBook(k)),
        items.contains(ShopItem::UpgradeWeapon) == (p.weapon.level < 10),
        items.contains(ShopItem::UpgradeDodge) == (p.upgrades.dodge_level < 5),
        items.contains(ShopItem::UpgradePotionCapacity) == (p.upgrades.potion_capacity_level < 3),
{
    lemma_shop_offer_contains(stage, p, ShopItem::BuyWeapon(WeaponKind::VenomScythe));
    lemma_shop_offer_contains(stage, p, ShopItem::BuyWeapon(WeaponKind::CrystalScythe));
    lemma_shop_offer_contains(stage, p, ShopItem::BuyWeapon(WeaponKind::ThunderScythe));
    lemma_shop_offer_contains(stage, p, ShopItem::BuyWeapon(WeaponKind::VampireScythe));
    lemma_shop_offer_contains(stage, p, ShopItem::BuyWeapon(WeaponKind::GiantScythe));
    lemma_shop_offer_contains(stage, p, ShopItem::BuyWeapon(WeaponKind::BasicScythe));
    lemma_shop_offer_contains(stage, p, ShopItem::BuyPotion(Potion::Purity));
    lemma_shop_offer_contains(stage, p, ShopItem::BuyPotion(Potion::Lifesteal));
    lemma_shop_offer_contains(stage, p, ShopItem::BuyBook(BookKind::Strength));
    lemma_shop_offer_contains(stage, p, ShopItem::BuyBook(BookKind::Health));
    lemma_shop_offer_contains(stage, p, ShopItem::BuyBook(BookKind::Wisdom));
    lemma_shop_offer_contains(stage, p, ShopItem::BuyBook(BookKind::Wealth));
    lemma_shop_offer_contains(stage, p, ShopItem::BuyBook(BookKind::Speed));
    lemma_shop_offer_contains(stage, p, ShopItem::BuyBook(BookKind::Purity));
    lemma_shop_offer_contains(stage, p, ShopItem::UpgradeWeapon);
    lemma_shop_offer_contains(stage, p, ShopItem::UpgradeDodge);
    lemma_shop_offer_contains(stage, p, ShopItem::UpgradePotionCapacity);
    assert forall|k: BookKind| p.books@.len() >= 3 implies !items.contains(ShopItem::BuyBook(k)) by {
        lemma_shop_offer_contains(stage, p, ShopItem::BuyBook(k));
    }
}

/// The price list: weapons cost 150 (venom), 200 (crystal), 300 (thunder),
/// 250 (vampire) and 350 (giant); books 100 (strength), 120 (wisdom), 80
/// (health), 150 (speed), 130 (purity) and 200 (wealth); potions 30
/// (healing), 50 (purity) and 40 (lifesteal); a weapon's next level costs
/// 50 times the square of that level.
pub proof fn law_price_list(p: Player, power: i32)
    ensures
        item_price(ShopItem::BuyWeapon(WeaponKind::VenomScythe), p) == 150,
        item_price(ShopItem::BuyWeapon(WeaponKind::CrystalScythe), p) == 200,
        item_price(ShopItem::BuyWeapon(WeaponKind::ThunderScythe), p) == 300,
        item_price(ShopItem::BuyWeapon(WeaponKind::VampireScythe), p) == 250,
        item_price(ShopItem::BuyWeapon(WeaponKind::GiantScythe), p) == 350,
        item_price(ShopItem::BuyBook(BookKind::Strength), p) == 100,
        item_price(ShopItem::BuyBook(BookKind::Wisdom), p) == 120,
        item_price(ShopItem::BuyBook(BookKind::Health), p) == 80,
        item_price(ShopItem::BuyBook(BookKind::Speed), p) == 150,
        item_price(ShopItem::BuyBook(BookKind::Purity), p) == 130,
        item_price(ShopItem::BuyBook(BookKind::Wealth), p) == 200,
        item_price(ShopItem::BuyPotion(Potion::Healing { power }), p) == 30,
        item_price(ShopItem::BuyPotion(Potion::Purity), p) == 50,
        item_price(ShopItem::BuyPotion(Potion::Lifesteal), p) == 40,
        item_price(ShopItem::UpgradeWeapon, p) == 50 * (p.weapon.level + 1) * (p.weapon.level + 1),
{
}

} // verus!
