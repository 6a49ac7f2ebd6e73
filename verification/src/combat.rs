//! Resolving a turn of combat: the player's word and the enemy's reply.

use crate::board::{afflicted_board, cleansed, count_where, is_dealt, ticked_board, Board};
use crate::enemy::{hit_damage, Enemy, EnemyAbility};
use crate::equipment::{settle, settle_checked, settle_fits, Book, BookKind, WeaponKind};
use crate::player::{healed_hp, Player};
use crate::rng::gen_ratio;
use crate::text::{decimal, int_to_string, join, join3, uint_to_string};
use crate::tile::{effect_debug_name, spec_is_negative, Tile, TileEffect};
use rand_chacha::ChaCha8Rng;
use vstd::prelude::*;

verus! {

/// What the damage roll of a word produced.
#[derive(Debug, Clone, Copy, PartialEq, Eq)]
pub struct DamageResult {
    pub raw_damage: i32,
    pub is_crit: bool,
    pub self_damage: i32,
    pub lifesteal: i32,
    pub bonus_turn: bool,
}

pub struct EnemyTurnResult {
    pub damage_dealt: i32,
    pub dodged: bool,
    pub abilities_used: Vec<String>,
    pub healed: i32,
}

/// The player's chance to dodge, in thousandths: their own, plus two per
/// level of a basic scythe.
pub open spec fn dodge_permille(p: Player) -> int {
    p.dodge_permille + if p.weapon.kind == WeaponKind::BasicScythe {
        2 * p.weapon.level
    } else {
        0
    }
}

/// An enemy's health, attack and total healing after using one ability.
pub open spec fn after_ability(st: (int, int, int), max_hp: int, a: EnemyAbility) -> (int, int, int) {
    match a {
        EnemyAbility::ApplyEffect { .. } => st,
        EnemyAbility::HealSelf { amount } => (
            if st.0 + amount < max_hp {
                st.0 + amount
            } else {
                max_hp
            },
            st.1,
            st.2 + amount,
        ),
        EnemyAbility::Enrage { bonus_attack } => (st.0, st.1 + bonus_attack, st.2),
    }
}

/// The same after a sequence of abilities, used in order.
pub open spec fn after_abilities(st: (int, int, int), max_hp: int, s: Seq<EnemyAbility>) -> (int, int, int)
    decreases s.len(),
{
    if s.len() == 0 {
        st
    } else {
        after_ability(after_abilities(st, max_hp, s.drop_last()), max_hp, s.last())
    }
}

pub open spec fn in_i32(x: int) -> bool {
    i32::MIN <= x <= i32::MAX
}

/// Using the ability stays within `i32`.
pub open spec fn ability_fits(st: (int, int, int), a: EnemyAbility) -> bool {
    match a {
        EnemyAbility::HealSelf { amount } => in_i32(st.0 + amount) && in_i32(st.2 + amount),
        EnemyAbility::Enrage { bonus_attack } => in_i32(st.1 + bonus_attack),
        _ => true,
    }
}

pub open spec fn abilities_fit(st: (int, int, int), max_hp: int, s: Seq<EnemyAbility>) -> bool
    decreases s.len(),
{
    s.len() == 0 || (abilities_fit(st, max_hp, s.drop_last()) && ability_fits(
        after_abilities(st, max_hp, s.drop_last()),
        s.last(),
    ))
}

/// What the log says about an ability.
pub open spec fn ability_message(a: EnemyAbility) -> Seq<char> {
    match a {
        EnemyAbility::ApplyEffect { effect, count, .. } => "Applied "@ + effect_debug_name(effect) + " to "@
            + decimal(count as int) + " tiles!"@,
        EnemyAbility::HealSelf { amount } => "Healed for "@ + decimal(amount as int) + " HP!"@,
        EnemyAbility::Enrage { bonus_attack } => "Enraged! +"@ + decimal(bonus_attack as int) + " attack!"@,
    }
}

pub open spec fn messages(v: Seq<String>) -> Seq<Seq<char>> {
    v.map_values(|s: String| s@)
}

/// What one ability does to the tiles: an effect is laid on some of them;
/// the other abilities leave them alone.
pub open spec fn ability_on_board(s: Seq<Tile>, t: Seq<Tile>, a: EnemyAbility) -> bool {
    match a {
        EnemyAbility::ApplyEffect { effect, count, timer } => afflicted_board(s, t, effect, count, timer),
        _ => t == s,
    }
}

/// The boards `steps` go from `s` through one ability after another.
pub open spec fn ability_steps(steps: Seq<Seq<Tile>>, abs: Seq<EnemyAbility>) -> bool {
    &&& steps.len() == abs.len() + 1
    &&& forall|k: int| 0 <= k < abs.len() ==> ability_on_board(steps[k], steps[k + 1], #[trigger] abs[k])
}

/// What a sequence of abilities, used in order, does to the tiles.
pub open spec fn abilities_on_board(s: Seq<Tile>, t: Seq<Tile>, abs: Seq<EnemyAbility>) -> bool {
    exists|steps: Seq<Seq<Tile>>| #[trigger] ability_steps(steps, abs) && steps[0] == s && steps.last() == t
}

/// The tiles after the enemy's turn: its abilities' effects in order, then
/// the turn's tick.
pub open spec fn enemy_turn_board(s: Seq<Tile>, t: Seq<Tile>, abs: Seq<EnemyAbility>) -> bool {
    exists|m: Seq<Tile>| #[trigger] abilities_on_board(s, m, abs) && ticked_board(m, t)
}

/// The enemy's turn can be taken without overflow.
pub open spec fn enemy_turn_fits(board: Board, player: Player, enemy: Enemy) -> bool {
    &&& board.wf()
    &&& in_i32(enemy.attack - player.armor)
    &&& in_i32(player.hp - hit_damage(enemy.attack as int, player.armor as int))
    &&& abilities_fit((enemy.hp as int, enemy.attack as int, 0), enemy.max_hp as int, enemy.abilities@)
}

fn ability_text(a: &EnemyAbility) -> (r: String)
    ensures
        r@ == ability_message(*a),
{
    match a {
        EnemyAbility::ApplyEffect { effect, count, .. } => {
            let n = uint_to_string(*count as u64);
            let head = join3("Applied ", effect.debug_name(), " to ");
            join3(head.as_str(), n.as_str(), " tiles!")
        },
        EnemyAbility::HealSelf { amount } => {
            let n = int_to_string(*amount as i64);
            join3("Healed for ", n.as_str(), " HP!")
        },
        EnemyAbility::Enrage { bonus_attack } => {
            let n = int_to_string(*bonus_attack as i64);
            join3("Enraged! +", n.as_str(), " attack!")
        },
    }
}

/// Resolve the enemy's turn: the player may dodge the attack (chance
/// `dodge_permille` in a thousand); otherwise the attack lands through the
/// player's armor. Then the enemy uses each of its abilities in order, and
/// the board's effects tick.
pub fn resolve_enemy_turn(
    board: &mut Board,
    player: &mut Player,
    enemy: &mut Enemy,
    rng: &mut ChaCha8Rng,
) -> (r: EnemyTurnResult)
    requires
        enemy_turn_fits(*old(board), *old(player), *old(enemy)),
    ensures
        dodge_permille(*old(player)) >= 1000 ==> r.dodged,
        dodge_permille(*old(player)) == 0 ==> !r.dodged,
        r.dodged ==> r.damage_dealt == 0 && final(player).hp == old(player).hp,
        !r.dodged ==> r.damage_dealt == hit_damage(old(enemy).attack as int, old(player).armor as int)
            && final(player).hp == if old(player).hp - r.damage_dealt > 0 {
            old(player).hp - r.damage_dealt
        } else {
            0
        },
        *final(player) == (Player { hp: final(player).hp, ..*old(player) }),
        ({
            let st = after_abilities(
                (old(enemy).hp as int, old(enemy).attack as int, 0),
                old(enemy).max_hp as int,
                old(enemy).abilities@,
            );
            &&& final(enemy).hp == st.0
            &&& final(enemy).attack == st.1
            &&& r.healed == st.2
        }),
        *final(enemy) == (Enemy { hp: final(enemy).hp, attack: final(enemy).attack, ..*old(enemy) }),
        messages(r.abilities_used@) == old(enemy).abilities@.map_values(|a: EnemyAbility| ability_message(a)),
        final(board).wf(),
        final(board).next_order() == old(board).next_order(),
        enemy_turn_board(old(board).cells(), final(board).cells(), old(enemy).abilities@),
{
    let w = player.weapon;
    let bonus: u64 = if w.kind == WeaponKind::BasicScythe {
        2 * w.level as u64
    } else {
        0
    };
    let total: u64 = player.dodge_permille as u64 + bonus;
    let chance: u32 = if total >= 1000 {
        1000
    } else {
        total as u32
    };
    let dodged = gen_ratio(rng, chance, 1000);
    let damage_dealt = if dodged {
        0
    } else {
        player.take_damage(enemy.attack)
    };
    let mut abilities_used: Vec<String> = Vec::new();
    let mut healed: i32 = 0;
    let abilities = enemy.abilities.clone();
    let ghost abs = old(enemy).abilities@;
    let ghost max_hp = old(enemy).max_hp as int;
    let ghost start = (old(enemy).hp as int, old(enemy).attack as int, 0int);
    let ghost enemy0 = *enemy;
    proof {
        assert(abilities@ == abs);
        assert(abs.subrange(0, 0) =~= Seq::<EnemyAbility>::empty());
        assert(messages(abilities_used@) =~= abs.subrange(0, 0).map_values(|a: EnemyAbility| ability_message(a)));
    }
    let ghost mut steps: Seq<Seq<Tile>> = seq![board.cells()];
    let mut i: usize = 0;
    while i < abilities.len()
        invariant
            abilities@ == abs,
            i <= abs.len(),
            max_hp == enemy.max_hp,
            abilities_fit(start, max_hp, abs),
            (enemy.hp as int, enemy.attack as int, healed as int) == after_abilities(start, max_hp, abs.subrange(0, i as int)),
            *enemy == (Enemy { hp: enemy.hp, attack: enemy.attack, ..enemy0 }),
            messages(abilities_used@) == abs.subrange(0, i as int).map_values(|a: EnemyAbility| ability_message(a)),
            board.wf(),
            board.next_order() == old(board).next_order(),
            ability_steps(steps, abs.subrange(0, i as int)),
            steps[0] == old(board).cells(),
            steps.last() == board.cells(),
        decreases abs.len() - i,
    {
        let a = abilities[i];
        let ghost m = board.cells();
        proof {
            assert(abs.subrange(0, i + 1).drop_last() =~= abs.subrange(0, i as int));
            lemma_fit_prefix(start, max_hp, abs, i + 1);
        }
        match a {
            EnemyAbility::ApplyEffect { effect, count, timer } => {
                board.apply_effect_to_random(rng, effect, count, timer);
            },
            EnemyAbility::HealSelf { amount } => {
                enemy.heal(amount);
                healed = healed + amount;
            },
            EnemyAbility::Enrage { bonus_attack } => {
                enemy.attack = enemy.attack + bonus_attack;
            },
        }
        proof {
            let t = abs.subrange(0, i + 1);
            assert(ability_on_board(m, board.cells(), a));
            let next = steps.push(board.cells());
            assert forall|k: int| 0 <= k < t.len() implies ability_on_board(next[k], next[k + 1], #[trigger] t[k]) by {
                if k < i {
                    assert(t[k] == abs.subrange(0, i as int)[k]);
                }
            }
            steps = next;
        }
        let text = ability_text(&a);
        let ghost before = abilities_used@;
        let ghost tv = text@;
        abilities_used.push(text);
        proof {
            let target = abs.subrange(0, i + 1).map_values(|a: EnemyAbility| ability_message(a));
            assert(a == abs[i as int]);
            assert(messages(before).len() == before.len());
            assert(abilities_used@ == before.push(text));
            assert forall|k: int| 0 <= k < i + 1 implies #[trigger] messages(abilities_used@)[k] == target[k] by {
                if k < i {
                    assert(abilities_used@[k] == before[k]);
                    assert(messages(before)[k] == abs.subrange(0, i as int).map_values(|a: EnemyAbility| ability_message(a))[k]);
                } else {
                    assert(abilities_used@[k]@ == tv);
                }
            }
            assert(messages(abilities_used@) =~= target);
        }
        i = i + 1;
    }
    proof {
        assert(abs.subrange(0, i as int) =~= abs);
    }
    let ghost mid = board.cells();
    board.tick_effects(rng);
    proof {
        assert(ability_steps(steps, abs));
        assert(abilities_on_board(old(board).cells(), mid, abs) && ticked_board(mid, board.cells()));
    }
    EnemyTurnResult { damage_dealt, dodged, abilities_used, healed }
}

/// Whether the enemy's turn can be taken without leaving the integer types.
pub fn enemy_turn_can_resolve(board: &Board, player: &Player, enemy: &Enemy) -> (r: bool)
    requires
        board.wf(),
    ensures
        r == enemy_turn_fits(*board, *player, *enemy),
{
    let diff: i64 = enemy.attack as i64 - player.armor as i64;
    if diff < -0x8000_0000 || diff > 0x7fff_ffff {
        return false;
    }
    let hit: i64 = if diff > 1 {
        diff
    } else {
        1
    };
    if (player.hp as i64) - hit < -0x8000_0000 {
        return false;
    }
    let ghost abs = enemy.abilities@;
    let ghost max_hp = enemy.max_hp as int;
    let ghost start = (enemy.hp as int, enemy.attack as int, 0int);
    let mut hp: i64 = enemy.hp as i64;
    let mut atk: i64 = enemy.attack as i64;
    let mut healed: i64 = 0;
    let max: i64 = enemy.max_hp as i64;
    proof {
        assert(abs.subrange(0, 0) =~= Seq::<EnemyAbility>::empty());
    }
    let mut i: usize = 0;
    while i < enemy.abilities.len()
        invariant
            abs == enemy.abilities@,
            i <= abs.len(),
            max == max_hp,
            max_hp == enemy.max_hp,
            start == (enemy.hp as int, enemy.attack as int, 0int),
            in_i32(hp as int) && in_i32(atk as int) && in_i32(healed as int),
            (hp as int, atk as int, healed as int) == after_abilities(start, max_hp, abs.subrange(0, i as int)),
            abilities_fit(start, max_hp, abs.subrange(0, i as int)),
        decreases abs.len() - i,
    {
        let a = enemy.abilities[i];
        proof {
            assert(abs.subrange(0, i + 1).drop_last() =~= abs.subrange(0, i as int));
            assert(abs.subrange(0, i + 1).last() == a);
        }
        match a {
            EnemyAbility::HealSelf { amount } => {
                let raised = hp + amount as i64;
                let total = healed + amount as i64;
                if raised < -0x8000_0000 || raised > 0x7fff_ffff || total < -0x8000_0000 || total > 0x7fff_ffff {
                    proof {
                        if abilities_fit(start, max_hp, abs) {
                            lemma_fit_prefix(start, max_hp, abs, i + 1);
                        }
                    }
                    return false;
                }
                hp = if raised < max {
                    raised
                } else {
                    max
                };
                healed = total;
            },
            EnemyAbility::Enrage { bonus_attack } => {
                let raised = atk + bonus_attack as i64;
                if raised < -0x8000_0000 || raised > 0x7fff_ffff {
                    proof {
                        if abilities_fit(start, max_hp, abs) {
                            lemma_fit_prefix(start, max_hp, abs, i + 1);
                        }
                    }
                    return false;
                }
                atk = raised;
            },
            _ => {},
        }
        i = i + 1;
    }
    proof {
        assert(abs.subrange(0, i as int) =~= abs);
    }
    true
}

/// The extra damage a venom scythe adds to the selected word.
pub(crate) fn venom_of(board: &Board, player: &Player) -> (v: i32)
    requires
        board.wf(),
    ensures
        v == venom_bonus(board.cells(), *player),
{
    match player.weapon.kind {
        WeaponKind::VenomScythe => {
            let poison_count = board.count_selected_with_effect(TileEffect::Poison);
            proof {
                crate::board::lemma_count_bound(board.cells(), |t: Tile| t.selected && t.effect == TileEffect::Poison);
            }
            let lv = player.weapon.level as u64;
            let pc = poison_count as u64;
            proof {
                assert(3 * lv * pc <= 3 * 4294967295 * 15) by (nonlinear_arith)
                    requires
                        lv <= 4294967295,
                        pc <= 15,
                ;
            }
            let n: u64 = 3 * lv * pc;
            if n < 0x7fff_ffff {
                n as i32
            } else {
                0x7fff_ffff
            }
        },
        _ => 0,
    }
}

/// Whether resolving the word with this damage roll stays within the
/// integer types.
pub fn word_can_resolve(board: &Board, player: &Player, enemy: &Enemy, damage: DamageResult, potion: bool) -> (r: bool)
    requires
        board.wf(),
    ensures
        r == word_fits(*board, *player, *enemy, damage, potion),
{
    let venom = venom_of(board, player);
    let total: i64 = damage.raw_damage as i64 + venom as i64;
    if total < -0x8000_0000 || total > 0x7fff_ffff {
        return false;
    }
    let over: i64 = total - enemy.defense as i64;
    if over < -0x8000_0000 || over > 0x7fff_ffff {
        return false;
    }
    let dealt: i64 = if over > 1 {
        over
    } else {
        1
    };
    if (enemy.hp as i64) - dealt < -0x8000_0000 {
        return false;
    }
    let mut hp: i64 = player.hp as i64;
    let max: i64 = player.max_hp as i64;
    if damage.self_damage > 0 {
        let sd: i64 = damage.self_damage as i64 - player.armor as i64;
        if sd < -0x8000_0000 || sd > 0x7fff_ffff {
            return false;
        }
        let a: i64 = if sd > 1 {
            sd
        } else {
            1
        };
        if hp - a < -0x8000_0000 {
            return false;
        }
        hp = if hp - a > 0 {
            hp - a
        } else {
            0
        };
    }
    assert(hp == hp_after_self_damage(*player, damage));
    let defeated = (enemy.hp as i64) - dealt <= 0;
    if defeated && damage.lifesteal > 0 {
        let raised = hp + damage.lifesteal as i64;
        if raised < -0x8000_0000 || raised > 0x7fff_ffff {
            return false;
        }
        hp = if raised < max {
            raised
        } else {
            max
        };
    }
    assert(hp == hp_after_lifesteal(*player, damage, defeated));
    if potion {
        let raised = hp + dealt / 2;
        if raised < -0x8000_0000 || raised > 0x7fff_ffff {
            return false;
        }
        hp = if raised < max {
            raised
        } else {
            max
        };
    }
    assert(hp == hp_after_potion(*player, damage, defeated, dealt as int, potion));
    let ghost books = player.books@;
    let ghost mapped = books.map_values(|b: Book| book_after_word(b));
    let mut health: Option<u32> = None;
    proof {
        assert(mapped.subrange(0, mapped.len() as int) =~= mapped);
    }
    let mut i: usize = 0;
    while i < player.books.len()
        invariant
            books == player.books@,
            mapped == books.map_values(|b: Book| book_after_word(b)),
            i <= books.len(),
            forall|j: int|
                0 <= j < i ==> (#[trigger] books[j]).xp + 1 <= u32::MAX && settle_fits(
                    books[j].level as nat,
                    (books[j].xp + 1) as nat,
                ),
            first_level(mapped, BookKind::Health) == match health {
                Some(l) => Some(l),
                None => first_level(mapped.subrange(i as int, mapped.len() as int), BookKind::Health),
            },
        decreases books.len() - i,
    {
        let b = player.books[i];
        if b.xp == 0xffff_ffff {
            return false;
        }
        let settled = settle_checked(b.level, b.xp as u64 + 1);
        match settled {
            None => {
                return false;
            },
            Some(v) => {
                let ghost rest = mapped.subrange(i as int, mapped.len() as int);
                proof {
                    assert(rest[0] == book_after_word(b));
                    assert(rest.drop_first() =~= mapped.subrange(i + 1, mapped.len() as int));
                }
                if health.is_none() && b.kind == BookKind::Health {
                    health = Some(v.0);
                }
            },
        }
        i = i + 1;
    }
    match health {
        Some(l) => {
            let raised = hp + (#[verifier::truncate] (l as i32)) as i64;
            raised >= -0x8000_0000 && raised <= 0x7fff_ffff
        },
        None => true,
    }
}

/// A prefix of abilities that fit also fits, and so does its last step.
proof fn lemma_fit_prefix(st: (int, int, int), max_hp: int, s: Seq<EnemyAbility>, n: int)
    requires
        abilities_fit(st, max_hp, s),
        1 <= n <= s.len(),
    ensures
        abilities_fit(st, max_hp, s.subrange(0, n)),
        ability_fits(after_abilities(st, max_hp, s.subrange(0, n - 1)), s[n - 1]),
    decreases s.len(),
{
    if n == s.len() {
        assert(s.subrange(0, n) =~= s);
        assert(s.drop_last() =~= s.subrange(0, n - 1));
    } else {
        lemma_fit_prefix(st, max_hp, s.drop_last(), n);
        assert(s.drop_last().subrange(0, n) =~= s.subrange(0, n));
        assert(s.drop_last().subrange(0, n - 1) =~= s.subrange(0, n - 1));
    }
}


pub struct CombatResult {
    pub damage_dealt: i32,
    pub is_crit: bool,
    pub self_damage: i32,
    pub lifesteal: i32,
    pub potion_lifesteal: i32,
    pub word: String,
    pub enemy_defeated: bool,
    pub bonus_turn: bool,
    pub purity_cleansed: bool,
    pub venom_bonus: i32,
}

/// The level of the first book of this kind, if the player has one.
pub open spec fn first_level(books: Seq<Book>, kind: BookKind) -> Option<u32>
    decreases books.len(),
{
    if books.len() == 0 {
        None
    } else if books[0].kind == kind {
        Some(books[0].level)
    } else {
        first_level(books.drop_first(), kind)
    }
}

/// Extra damage of a venom scythe: three per level per selected poison
/// tile, capped at `i32::MAX` as the float cast it stands for would be.
pub open spec fn venom_bonus(cells: Seq<Tile>, p: Player) -> int {
    if p.weapon.kind == WeaponKind::VenomScythe {
        let n = 3 * p.weapon.level * count_where(cells, |t: Tile| t.selected && t.effect == TileEffect::Poison);
        if n < i32::MAX {
            n
        } else {
            i32::MAX as int
        }
    } else {
        0
    }
}

/// The crystal scythe's boost to crystal chance, in thousandths: forty per
/// level (beyond 920 the chance is certain anyway).
pub open spec fn crystal_bonus(p: Player) -> int {
    if p.weapon.kind == WeaponKind::CrystalScythe {
        if p.weapon.level >= 23 {
            920
        } else {
            40 * p.weapon.level
        }
    } else {
        0
    }
}

/// Health after self-damage from the tiles used.
pub open spec fn hp_after_self_damage(p: Player, d: DamageResult) -> int {
    if d.self_damage > 0 {
        let a = hit_damage(d.self_damage as int, p.armor as int);
        if p.hp - a > 0 {
            p.hp - a
        } else {
            0
        }
    } else {
        p.hp as int
    }
}

/// Whether a blow that deals `dealt` fells the enemy.
pub open spec fn fells(e: Enemy, dealt: int) -> bool {
    e.hp - dealt <= 0
}

/// The weapon's lifesteal that heals: a vampire scythe drinks only from a
/// killing word.
pub open spec fn lifesteal_gained(d: DamageResult, defeated: bool) -> int {
    if defeated {
        d.lifesteal as int
    } else {
        0
    }
}

/// The roll's bonus turn is granted only to a holder of a book of speed.
pub open spec fn bonus_granted(d: DamageResult, books: Seq<Book>) -> bool {
    d.bonus_turn && first_level(books, BookKind::Speed) is Some
}

/// Health after the weapon's lifesteal, which heals only when the word
/// felled the enemy.
pub open spec fn hp_after_lifesteal(p: Player, d: DamageResult, defeated: bool) -> int {
    let hp1 = hp_after_self_damage(p, d);
    if defeated && d.lifesteal > 0 {
        healed_hp(hp1, d.lifesteal as int, p.max_hp as int)
    } else {
        hp1
    }
}

/// Health after a lifesteal potion healing half the damage dealt.
pub open spec fn hp_after_potion(p: Player, d: DamageResult, defeated: bool, dealt: int, potion: bool) -> int {
    let hp2 = hp_after_lifesteal(p, d, defeated);
    if potion {
        healed_hp(hp2, dealt / 2, p.max_hp as int)
    } else {
        hp2
    }
}

/// Health after the word, with the book of health (by its level after this
/// word's experience) healing last.
pub open spec fn hp_after_word(p: Player, d: DamageResult, defeated: bool, dealt: int, potion: bool, books: Seq<Book>) -> int {
    let hp3 = hp_after_potion(p, d, defeated, dealt, potion);
    match first_level(books, BookKind::Health) {
        Some(l) => healed_hp(hp3, (l as i32) as int, p.max_hp as int),
        None => hp3,
    }
}

/// The tiles after a word: every picked tile is dealt anew; the others
/// stay, but for the one harmful tile a book of purity cleansed, if it did.
pub open spec fn cells_after_word(s: Seq<Tile>, t: Seq<Tile>, cleansed_tile: bool) -> bool {
    &&& forall|k: int| 0 <= k < 15 && (#[trigger] s[k]).selected ==> is_dealt(t[k])
    &&& if cleansed_tile {
        exists|j: int|
            0 <= j < 15 && !(#[trigger] s[j]).selected && spec_is_negative(s[j].effect) && t[j] == cleansed(s[j])
                && forall|k: int| 0 <= k < 15 && k != j && !(#[trigger] s[k]).selected ==> t[k] == s[k]
    } else {
        forall|k: int| 0 <= k < 15 && !(#[trigger] s[k]).selected ==> t[k] == s[k]
    }
}

/// A book after one point of experience.
pub open spec fn book_after_word(b: Book) -> Book {
    let s = settle(b.level as nat, (b.xp + 1) as nat);
    Book { level: s.0 as u32, xp: s.1 as u32, ..b }
}

/// Resolving the word stays within the integer types.
pub open spec fn word_fits(board: Board, p: Player, e: Enemy, d: DamageResult, potion: bool) -> bool {
    let total = d.raw_damage + venom_bonus(board.cells(), p);
    let dealt = hit_damage(total, e.defense as int);
    let defeated = fells(e, dealt);
    let books = p.books@.map_values(|b: Book| book_after_word(b));
    &&& board.wf()
    &&& in_i32(total)
    &&& in_i32(total - e.defense)
    &&& in_i32(e.hp - dealt)
    &&& d.self_damage > 0 ==> in_i32(d.self_damage - p.armor) && in_i32(p.hp - hit_damage(d.self_damage as int, p.armor as int))
    &&& defeated && d.lifesteal > 0 ==> in_i32(hp_after_self_damage(p, d) + d.lifesteal)
    &&& potion ==> in_i32(hp_after_lifesteal(p, d, defeated) + dealt / 2)
    &&& forall|i: int| 0 <= i < p.books@.len() ==> (#[trigger] p.books@[i]).xp + 1 <= u32::MAX && settle_fits(p.books@[i].level as nat, (p.books@[i].xp + 1) as nat)
    &&& match first_level(books, BookKind::Health) {
        Some(l) => in_i32(hp_after_potion(p, d, defeated, dealt, potion) + (l as i32) as int),
        None => true,
    }
}

pub(crate) fn first_book_level(books: &Vec<Book>, kind: BookKind) -> (r: Option<u32>)
    ensures
        r == first_level(books@, kind),
{
    let mut i: usize = 0;
    proof {
        assert(books@.subrange(0, books@.len() as int) =~= books@);
    }
    while i < books.len()
        invariant
            i <= books@.len(),
            first_level(books@, kind) == first_level(books@.subrange(i as int, books@.len() as int), kind),
        decreases books@.len() - i,
    {
        let ghost rest = books@.subrange(i as int, books@.len() as int);
        proof {
            assert(rest.drop_first() =~= books@.subrange(i + 1, books@.len() as int));
        }
        if books[i].kind == kind {
            return Some(books[i].level);
        }
        i = i + 1;
    }
    proof {
        assert(books@.subrange(i as int, books@.len() as int).len() == 0);
    }
    None
}

/// Resolve the player submitting a word, given the damage roll for it:
/// the selected word deals the rolled damage (plus a venom scythe's bonus)
/// through the enemy's defense; tile self-damage, the weapon's lifesteal (on
/// a killing word only) and a lifesteal potion (half the damage dealt) apply
/// in that order; every book gains a point of experience; the used tiles are
/// replaced; the first book of purity may cleanse one harmful tile (chance a
/// tenth per level, at most four tenths) and the first book of health heals
/// by its level. The roll's bonus turn stands only for a holder of a book of
/// speed.
pub fn resolve_player_word(
    board: &mut Board,
    player: &mut Player,
    enemy: &mut Enemy,
    rng: &mut ChaCha8Rng,
    lifesteal_potion_active: bool,
    damage: DamageResult,
) -> (r: CombatResult)
    requires
        word_fits(*old(board), *old(player), *old(enemy), damage, lifesteal_potion_active),
    ensures
        ({
            let total = damage.raw_damage + venom_bonus(old(board).cells(), *old(player));
            let dealt = hit_damage(total, old(enemy).defense as int);
            let defeated = fells(*old(enemy), dealt);
            let books = old(player).books@.map_values(|b: Book| book_after_word(b));
            &&& r.word@ == old(board).word()
            &&& r.venom_bonus == venom_bonus(old(board).cells(), *old(player))
            &&& r.damage_dealt == dealt
            &&& r.is_crit == damage.is_crit
            &&& r.self_damage == damage.self_damage
            &&& r.lifesteal == lifesteal_gained(damage, defeated)
            &&& r.bonus_turn == bonus_granted(damage, old(player).books@)
            &&& r.potion_lifesteal == if lifesteal_potion_active {
                dealt / 2
            } else {
                0
            }
            &&& final(enemy).hp == if old(enemy).hp - dealt > 0 {
                old(enemy).hp - dealt
            } else {
                0
            }
            &&& *final(enemy) == (Enemy { hp: final(enemy).hp, ..*old(enemy) })
            &&& r.enemy_defeated == defeated
            &&& final(player).books@ == books
            &&& final(player).hp == hp_after_word(*old(player), damage, defeated, dealt, lifesteal_potion_active, books)
            &&& *final(player) == (Player { hp: final(player).hp, books: final(player).books, ..*old(player) })
            &&& r.purity_cleansed ==> first_level(books, BookKind::Purity) is Some
        }),
        final(board).wf(),
        final(board).next_order() == 1,
        cells_after_word(old(board).cells(), final(board).cells(), r.purity_cleansed),
{
    let ghost cells0 = board.cells();
    let speed = first_book_level(&player.books, BookKind::Speed);
    let word = board.selected_word();
    let venom = venom_of(board, player);
    let total = damage.raw_damage + venom;
    let damage_dealt = enemy.take_damage(total);
    if damage.self_damage > 0 {
        player.take_damage(damage.self_damage);
    }
    let defeated = !enemy.is_alive();
    let lifesteal = if defeated {
        damage.lifesteal
    } else {
        0
    };
    if lifesteal > 0 {
        player.heal(lifesteal);
    }
    let potion_lifesteal = if lifesteal_potion_active {
        let heal = damage_dealt / 2;
        player.heal(heal);
        heal
    } else {
        0
    };
    let ghost p1 = *player;
    let mut i: usize = 0;
    while i < player.books.len()
        invariant
            i <= p1.books@.len(),
            player.books@.len() == p1.books@.len(),
            *player == (Player { books: player.books, ..p1 }),
            forall|j: int|
                0 <= j < p1.books@.len() ==> (#[trigger] p1.books@[j]).xp + 1 <= u32::MAX && settle_fits(
                    p1.books@[j].level as nat,
                    (p1.books@[j].xp + 1) as nat,
                ),
            forall|j: int| 0 <= j < i ==> #[trigger] player.books@[j] == book_after_word(p1.books@[j]),
            forall|j: int| i <= j < p1.books@.len() ==> #[trigger] player.books@[j] == p1.books@[j],
        decreases p1.books@.len() - i,
    {
        let mut b = player.books[i];
        b.add_xp(1);
        player.books.set(i, b);
        i = i + 1;
    }
    proof {
        assert(player.books@ =~= p1.books@.map_values(|b: Book| book_after_word(b)));
    }
    let crystal: u32 = match player.weapon.kind {
        WeaponKind::CrystalScythe => if player.weapon.level >= 23 {
            920
        } else {
            40 * player.weapon.level
        },
        _ => 0,
    };
    let ghost mid0 = board.cells();
    board.consume_selected(rng, crystal);
    let ghost mid = board.cells();
    let mut purity_cleansed = false;
    match first_book_level(&player.books, BookKind::Purity) {
        Some(level) => {
            let chance: u32 = if level < 4 {
                level
            } else {
                4
            };
            if gen_ratio(rng, chance, 10) {
                purity_cleansed = board.cleanse_one_random(rng);
            }
        },
        None => {},
    }
    proof {
        if purity_cleansed {
            let j = choose|j: int|
                0 <= j < mid.len() && spec_is_negative((#[trigger] mid[j]).effect) && board.cells() == mid.update(
                    j,
                    cleansed(mid[j]),
                );
            if cells0[j].selected {
                assert(is_dealt(mid[j]));
                assert(false);
            }
            assert(mid[j] == cells0[j]);
            assert(forall|k: int| 0 <= k < 15 && k != j && !(#[trigger] cells0[k]).selected ==> board.cells()[k] == cells0[k]);
        } else {
            assert(board.cells() == mid);
        }
    }
    match first_book_level(&player.books, BookKind::Health) {
        Some(level) => {
            player.heal(#[verifier::truncate] (level as i32));
        },
        None => {},
    }
    CombatResult {
        damage_dealt,
        is_crit: damage.is_crit,
        self_damage: damage.self_damage,
        lifesteal,
        potion_lifesteal,
        word,
        enemy_defeated: defeated,
        bonus_turn: damage.bonus_turn && speed.is_some(),
        purity_cleansed,
        venom_bonus: venom,
    }
}

} // verus!
