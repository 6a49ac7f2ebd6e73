//! The flow of the game from screen to screen: what each key press and each
//! tick of the clock does to the run. Work that needs the world outside the
//! library (saving and loading, the damage roll and the gem reward, which
//! are floating-point formulas, and looking up definitions) comes back as an
//! `Action` for the caller to carry out.

use crate::board::{cleansed, toggle_result, undo_result, Board, BOARD_COLS, BOARD_ROWS};
use crate::combat::{
    ability_message, after_abilities, book_after_word, dodge_permille, enemy_turn_board, enemy_turn_can_resolve,
    bonus_granted, cells_after_word, enemy_turn_fits, hp_after_word, lifesteal_gained, resolve_enemy_turn,
    resolve_player_word, venom_bonus,
    word_can_resolve, word_fits, DamageResult,
};
use crate::definitions::DefinitionCache;
use crate::dictionary::Dictionary;
use crate::enemy::{hit_damage, obeys, rule_text, Enemy, EnemyAbility};
use crate::enemy_gen::{enemy_ok, stage_can_generate, stage_fits};
use crate::equipment::{Book, BookKind, Potion};
use crate::event::{Event, KeyCode, KeyPress};
use crate::player::{healed_hp, potion_message, same_player, Player};
use crate::rng::rng_from_seed;
use crate::shop::{
    affordable, after_purchase, books_after, buy_item, cost_for_item, generate_shop_items,
    item_price, potions_after, purchase_can_apply, purchase_fits, purchase_message, shop_offer,
    ShopItem,
};
use crate::stage::{biome_name, biome_of, enemy_cap, generate_stage, Biome};
use crate::state::{CombatPhase, CombatState, LogColor, LogEntry, Screen};
use crate::stats::{history_after, same_stats, texts, RunStats};
use crate::text::{
    contains_text, decimal, int_to_string, join, join3, spec_to_uppercase, text_contains,
    uint_to_string,
};
use crate::tile::is_fresh;
use rand_chacha::ChaCha8Rng;
use vstd::prelude::*;

verus! {

/// The shop's screen: what is on offer, which line is highlighted and the
/// answer to the last purchase.
pub struct ShopScreenState {
    pub items: Vec<ShopItem>,
    pub selected_index: usize,
    pub message: Option<String>,
}

/// A saved run as the caller read it back.
pub enum LoadOutcome {
    Loaded { player: Player, stage_number: u32, rng_seed: u64, stats: RunStats },
    Missing,
    Failed(String),
}

/// Work for the caller after a step.
pub enum Action {
    /// Nothing is left to do.
    Nothing,
    /// The selected word was accepted: roll its damage and hand the roll to
    /// `finish_word`.
    RollDamage,
    /// The stage's last enemy fell: work out the gem reward and hand it to
    /// `begin_stage_victory`.
    StageReward { was_boss: bool },
    /// Save this run: the player, the stage to resume at and the statistics.
    Save { player: Player, stage_number: u32, stats: RunStats },
    /// Delete the saved run.
    DeleteSave,
    /// Read the saved run back and hand the outcome to `continue_game`.
    LoadSave,
    /// Look again whether a saved run exists and set `has_save`.
    CheckSave,
    /// Fetch the definition of this word and hand it to the definition
    /// cache's `complete`.
    LookUp(String),
    /// The step would leave the integer types; nothing was changed.
    OutOfRange,
}

pub struct App {
    pub player: Player,
    pub combat: Option<CombatState>,
    pub shop_state: Option<ShopScreenState>,
    pub stage_number: u32,
    pub dictionary: Dictionary,
    pub rng: ChaCha8Rng,
    pub message_log: Vec<LogEntry>,
    pub menu_selection: usize,
    pub inventory_selection: usize,
    pub biome: Biome,
    pub has_save: bool,
    pub stats: RunStats,
    pub show_help: bool,
    pub show_stats: bool,
    pub definitions: DefinitionCache,
    pub screen: Screen,
    pub previous_screen: Screen,
    pub should_quit: bool,
}

/// The log as text and colour, line by line.
pub open spec fn log_view(v: Seq<LogEntry>) -> Seq<(Seq<char>, LogColor)> {
    v.map_values(|e: LogEntry| (e.text@, e.color))
}

/// A fight in progress is consistent: the board is, the current enemy
/// exists and the cursor is on the board.
pub open spec fn combat_wf(c: CombatState) -> bool {
    &&& c.board.wf()
    &&& c.current_enemy_idx < c.enemies@.len()
    &&& c.cursor.0 < BOARD_ROWS
    &&& c.cursor.1 < BOARD_COLS
}

/// The enemies of a stage as the stage generator makes them.
pub open spec fn stage_enemies(stage: int, enemies: Seq<Enemy>) -> bool {
    &&& stage % 10 == 0 ==> enemies.len() == 1 && enemy_ok(stage, biome_of(stage), true, enemies[0])
    &&& stage % 10 != 0 ==> 1 <= enemies.len() <= enemy_cap(stage) && forall|i: int|
        0 <= i < enemies.len() ==> enemy_ok(stage, biome_of(stage), false, #[trigger] enemies[i])
}

/// What the log says when a stage's fight begins.
pub open spec fn start_messages(stage: int, enemies: Seq<Enemy>) -> Seq<(Seq<char>, LogColor)> {
    let first = enemies[0];
    seq![("--- Stage "@ + decimal(stage) + " | "@ + biome_name(biome_of(stage)) + " ---"@, LogColor::Info)]
        + if enemies.len() > 1 {
        seq![
            (decimal(enemies.len() as int) + " enemies approach! First up: "@ + first.name@ + "!"@, LogColor::Warning),
        ]
    } else {
        seq![("A wild "@ + first.name@ + " appears!"@, LogColor::Warning)]
    } + if first.is_boss {
        seq![("BOSS BATTLE!"@, LogColor::Crit)]
    } else {
        Seq::empty()
    }
}

/// `b` holds a fresh fight of stage `stage`, its log being `before` and the
/// opening messages.
pub open spec fn combat_started(stage: int, before: Seq<(Seq<char>, LogColor)>, b: App) -> bool {
    &&& b.screen == Screen::Combat
    &&& b.biome == biome_of(stage)
    &&& b.combat matches Some(c) && {
        &&& c.phase == CombatPhase::PlayerInput
        &&& c.current_enemy_idx == 0
        &&& c.turn_count == 0
        &&& c.cursor == (0usize, 0usize)
        &&& !c.lifesteal_active
        &&& c.board.wf()
        &&& c.board.next_order() == 1
        &&& forall|k: int| 0 <= k < 15 ==> is_fresh(#[trigger] c.board.cells()[k])
        &&& stage_enemies(stage, c.enemies@)
        &&& log_view(b.message_log@) == before + start_messages(stage, c.enemies@)
    }
}

/// The player a new run begins with.
pub open spec fn fresh_player(p: Player) -> bool {
    &&& p.hp == 100
    &&& p.max_hp == 100
    &&& p.base_attack == 5
    &&& p.armor == 0
    &&& p.dodge_permille == 50
    &&& p.crit_permille == 100
    &&& p.crit_multiplier_percent == 150
    &&& p.gems == 0
    &&& p.weapon == (crate::equipment::Weapon { kind: crate::equipment::WeaponKind::BasicScythe, level: 1 })
    &&& p.books@ == Seq::<Book>::empty()
    &&& p.potions@ == seq![Potion::Healing { power: 30 }]
    &&& p.max_potions == 3
    &&& p.upgrades == (crate::player::PlayerUpgrades {
        hp_level: 0,
        attack_level: 0,
        armor_level: 0,
        dodge_level: 0,
        potion_capacity_level: 0,
    })
}

/// The statistics a new run begins with.
pub open spec fn fresh_stats(s: RunStats) -> bool {
    &&& s.words_submitted == 0
    &&& s.total_damage_dealt == 0
    &&& s.total_damage_taken == 0
    &&& s.enemies_defeated == 0
    &&& s.bosses_defeated == 0
    &&& s.crits_landed == 0
    &&& s.dodges == 0
    &&& s.longest_word@ == Seq::<char>::empty()
    &&& s.highest_damage_word@ == Seq::<char>::empty()
    &&& s.highest_damage == 0
    &&& s.potions_used == 0
    &&& s.gems_earned == 0
    &&& s.gems_spent == 0
    &&& s.tiles_shuffled == 0
    &&& s.word_history@ == Seq::<String>::empty()
}

/// A new run: a fresh player and statistics at stage 1, an empty log and
/// the first fight begun; the saved run is to be deleted.
pub open spec fn new_game_post(a: App, b: App, act: Action) -> bool {
    &&& act is DeleteSave
    &&& fresh_player(b.player)
    &&& fresh_stats(b.stats)
    &&& b.stage_number == 1
    &&& combat_started(1, Seq::empty(), b)
    &&& b == (App {
        player: b.player,
        stats: b.stats,
        stage_number: b.stage_number,
        message_log: b.message_log,
        combat: b.combat,
        biome: b.biome,
        screen: b.screen,
        rng: b.rng,
        ..a
    })
}

/// The player asked to quit.
pub open spec fn quit_post(a: App, b: App, act: Action) -> bool {
    act is Nothing && b == (App { should_quit: true, ..a })
}

/// Nothing happens.
pub open spec fn idle_post(a: App, b: App, act: Action) -> bool {
    act is Nothing && b == a
}

/// Moving on to the next stage's fight (skipping or leaving the shop).
pub open spec fn next_stage_post(a: App, b: App, act: Action) -> bool {
    if a.stage_number < u32::MAX && stage_fits(a.stage_number + 1) {
        &&& act is Nothing
        &&& b.stage_number == a.stage_number + 1
        &&& combat_started(b.stage_number as int, log_view(a.message_log@), b)
        &&& b == (App {
            stage_number: b.stage_number,
            message_log: b.message_log,
            combat: b.combat,
            biome: b.biome,
            screen: b.screen,
            rng: b.rng,
            ..a
        })
    } else {
        act is OutOfRange && b == a
    }
}

/// The keys of the title screen: up and down move through its options
/// (continue, when there is a saved run, new game and quit), enter picks
/// one and `q` quits.
pub open spec fn title_key_post(a: App, b: App, key: KeyPress, act: Action) -> bool {
    let last: usize = if a.has_save {
        2
    } else {
        1
    };
    let sel = a.menu_selection;
    match key.code {
        KeyCode::Up => act is Nothing && b == (App {
            menu_selection: if sel > 0 {
                (sel - 1) as usize
            } else {
                sel
            },
            ..a
        }),
        KeyCode::Down => act is Nothing && b == (App {
            menu_selection: if sel < last {
                (sel + 1) as usize
            } else {
                sel
            },
            ..a
        }),
        KeyCode::Enter => if a.has_save {
            if sel == 0 {
                act is LoadSave && b == a
            } else if sel == 1 {
                new_game_post(a, b, act)
            } else if sel == 2 {
                quit_post(a, b, act)
            } else {
                idle_post(a, b, act)
            }
        } else {
            if sel == 0 {
                new_game_post(a, b, act)
            } else if sel == 1 {
                quit_post(a, b, act)
            } else {
                idle_post(a, b, act)
            }
        },
        KeyCode::Char('q') => quit_post(a, b, act),
        _ => idle_post(a, b, act),
    }
}

/// The keys of the map between stages: enter opens the shop, `c` goes on
/// to the next stage, `q` quits.
pub open spec fn map_key_post(a: App, b: App, key: KeyPress, act: Action) -> bool {
    match key.code {
        KeyCode::Enter => shop_opened(a, b, act),
        KeyCode::Char('c') | KeyCode::Char('C') => next_stage_post(a, b, act),
        KeyCode::Char('q') | KeyCode::Char('Q') => quit_post(a, b, act),
        _ => idle_post(a, b, act),
    }
}

/// The shop opens with what it offers at this stage, the first line
/// highlighted and no message.
pub open spec fn shop_opened(a: App, b: App, act: Action) -> bool {
    if a.stage_number + 30 <= i32::MAX {
        &&& act is Nothing
        &&& b.shop_state matches Some(s) && s.items@ == shop_offer(a.stage_number as int, a.player)
            && s.selected_index == 0 && s.message is None
        &&& b == (App { shop_state: b.shop_state, screen: Screen::Shop, ..a })
    } else {
        act is OutOfRange && b == a
    }
}

/// The keys of the inventory: up and down move through the books, delete
/// or backspace throws the highlighted book away, escape goes back.
pub open spec fn inventory_key_post(a: App, b: App, key: KeyPress, act: Action) -> bool {
    let sel = a.inventory_selection;
    let n = a.player.books@.len();
    &&& act is Nothing
    &&& match key.code {
        KeyCode::Up => b == (App {
            inventory_selection: if sel > 0 {
                (sel - 1) as usize
            } else {
                sel
            },
            ..a
        }),
        KeyCode::Down => b == (App {
            inventory_selection: if n > 0 && sel < n - 1 {
                (sel + 1) as usize
            } else {
                sel
            },
            ..a
        }),
        KeyCode::Delete | KeyCode::Backspace => if sel < n {
            &&& b.player.books@ == a.player.books@.remove(sel as int)
            &&& b.inventory_selection == if sel > 0 && sel >= n - 1 {
                sel - 1
            } else {
                sel as int
            }
            &&& b == (App {
                player: Player { books: b.player.books, ..a.player },
                inventory_selection: b.inventory_selection,
                ..a
            })
        } else {
            b == a
        },
        KeyCode::Esc => b == (App { screen: a.previous_screen, ..a }),
        _ => b == a,
    }
}

/// The keys of the game-over screen: enter goes back to the title (whose
/// saved-run flag is to be refreshed), `q` quits.
pub open spec fn game_over_key_post(a: App, b: App, key: KeyPress, act: Action) -> bool {
    match key.code {
        KeyCode::Enter => act is CheckSave && b == (App { screen: Screen::Title, menu_selection: 0, ..a }),
        KeyCode::Char('q') | KeyCode::Char('Q') => quit_post(a, b, act),
        _ => idle_post(a, b, act),
    }
}

proof fn lemma_log_push(v: Seq<LogEntry>, e: LogEntry)
    ensures
        log_view(v.push(e)) == log_view(v).push((e.text@, e.color)),
{
    assert(log_view(v.push(e)) =~= log_view(v).push((e.text@, e.color)));
}

impl App {
    /// The whole state is consistent.
    pub open spec fn wf(&self) -> bool {
        &&& self.dictionary.wf()
        &&& self.definitions.wf()
        &&& self.stage_number >= 1
        &&& match self.combat {
            Some(c) => combat_wf(c),
            None => true,
        }
        &&& match self.shop_state {
            Some(s) => s.selected_index < s.items@.len(),
            None => true,
        }
    }

    /// A new session on the title screen, at stage 1 of a fresh run, drawing
    /// its chances from `rng`; `has_save` says whether a saved run exists.
    pub fn new(dictionary: Dictionary, has_save: bool, rng: ChaCha8Rng) -> (app: App)
        requires
            dictionary.wf(),
        ensures
            app.wf(),
            fresh_player(app.player),
            fresh_stats(app.stats),
            app.combat is None,
            app.shop_state is None,
            app.stage_number == 1,
            app.dictionary == dictionary,
            app.rng == rng,
            app.message_log@.len() == 0,
            app.menu_selection == 0,
            app.inventory_selection == 0,
            app.biome == Biome::Forest,
            app.has_save == has_save,
            !app.show_help,
            !app.show_stats,
            app.definitions@ == Map::<Seq<char>, Option<Seq<char>>>::empty(),
            app.screen == Screen::Title,
            app.previous_screen == Screen::Title,
            !app.should_quit,
    {
        App {
            player: Player::new(),
            combat: None,
            shop_state: None,
            stage_number: 1,
            dictionary,
            rng,
            message_log: Vec::new(),
            menu_selection: 0,
            inventory_selection: 0,
            biome: Biome::Forest,
            has_save,
            stats: RunStats::default(),
            show_help: false,
            show_stats: false,
            definitions: DefinitionCache::new(),
            screen: Screen::Title,
            previous_screen: Screen::Title,
            should_quit: false,
        }
    }

    pub fn current_screen(&self) -> (s: Screen)
        ensures
            s == self.screen,
    {
        self.screen
    }

    fn log(&mut self, text: String, color: LogColor)
        ensures
            log_view(final(self).message_log@) == log_view(old(self).message_log@).push((text@, color)),
            *final(self) == (App { message_log: final(self).message_log, ..*old(self) }),
    {
        let ghost before = self.message_log@;
        self.message_log.push(LogEntry { text, color });
        proof {
            lemma_log_push(before, LogEntry { text, color });
        }
    }

    /// Begins the fight of the current stage: rolls its enemies and a fresh
    /// board and announces the stage.
    pub fn start_combat(&mut self)
        requires
            old(self).wf(),
            stage_fits(old(self).stage_number as int),
        ensures
            final(self).wf(),
            combat_started(old(self).stage_number as int, log_view(old(self).message_log@), *final(self)),
            *final(self) == (App {
                message_log: final(self).message_log,
                combat: final(self).combat,
                biome: final(self).biome,
                screen: final(self).screen,
                rng: final(self).rng,
                ..*old(self)
            }),
    {
        let ghost before = log_view(self.message_log@);
        let stage = self.stage_number;
        let config = generate_stage(&mut self.rng, stage);
        self.biome = config.biome;
        let board = Board::new(&mut self.rng);
        let enemies = config.enemies;
        let count = enemies.len();
        let n = uint_to_string(stage as u64);
        let head = join3("--- Stage ", n.as_str(), " | ");
        let line = join3(head.as_str(), self.biome.name(), " ---");
        self.log(line, LogColor::Info);
        if count > 1 {
            let c = uint_to_string(count as u64);
            let head = join3(c.as_str(), " enemies approach! First up: ", enemies[0].name.as_str());
            let line = join(head.as_str(), "!");
            self.log(line, LogColor::Warning);
        } else {
            let line = join3("A wild ", enemies[0].name.as_str(), " appears!");
            self.log(line, LogColor::Warning);
        }
        if enemies[0].is_boss {
            self.log(String::from_str("BOSS BATTLE!"), LogColor::Crit);
        }
        proof {
            assert(log_view(self.message_log@) =~= before + start_messages(stage as int, enemies@));
        }
        self.combat = Some(
            CombatState {
                board,
                enemies,
                current_enemy_idx: 0,
                turn_count: 0,
                cursor: (0, 0),
                phase: CombatPhase::PlayerInput,
                lifesteal_active: false,
            },
        );
        self.screen = Screen::Combat;
    }

    /// Starts a new run at stage 1.
    pub fn new_game(&mut self) -> (act: Action)
        requires
            old(self).wf(),
        ensures
            final(self).wf(),
            new_game_post(*old(self), *final(self), act),
    {
        self.player = Player::new();
        self.stage_number = 1;
        self.message_log = Vec::new();
        self.stats = RunStats::default();
        proof {
            assert(log_view(self.message_log@) =~= Seq::empty());
        }
        self.start_combat();
        Action::DeleteSave
    }

    /// Between stages: a small heal (ten, plus the stage number) and the map.
    pub fn enter_map(&mut self) -> (act: Action)
        requires
            old(self).wf(),
        ensures
            final(self).wf(),
            ({
                let a = *old(self);
                let amount = 10 + (a.stage_number as i32) as int;
                if i32::MIN <= amount <= i32::MAX && i32::MIN <= a.player.hp + amount <= i32::MAX {
                    &&& act is Nothing
                    &&& *final(self) == (App {
                        player: Player { hp: healed_hp(a.player.hp as int, amount, a.player.max_hp as int) as i32, ..a.player },
                        combat: None,
                        screen: Screen::StageMap,
                        ..a
                    })
                } else {
                    act is OutOfRange && *final(self) == a
                }
            }),
    {
        let amount: i64 = 10 + (#[verifier::truncate] (self.stage_number as i32)) as i64;
        if amount > 0x7fff_ffff || (self.player.hp as i64) + amount > 0x7fff_ffff || (self.player.hp as i64)
            + amount < -0x8000_0000 {
            return Action::OutOfRange;
        }
        self.player.heal(amount as i32);
        self.combat = None;
        self.screen = Screen::StageMap;
        Action::Nothing
    }

    /// Opens the shop.
    pub fn enter_shop(&mut self) -> (act: Action)
        requires
            old(self).wf(),
        ensures
            final(self).wf(),
            shop_opened(*old(self), *final(self), act),
    {
        if self.stage_number > 0x7fff_ffff - 30 {
            return Action::OutOfRange;
        }
        let items = generate_shop_items(self.stage_number, &self.player);
        self.shop_state = Some(ShopScreenState { items, selected_index: 0, message: None });
        self.screen = Screen::Shop;
        Action::Nothing
    }

    /// Goes on to the next stage's fight.
    pub fn next_stage(&mut self) -> (act: Action)
        requires
            old(self).wf(),
        ensures
            final(self).wf(),
            next_stage_post(*old(self), *final(self), act),
    {
        if self.stage_number == 0xffff_ffff || !stage_can_generate(self.stage_number + 1) {
            return Action::OutOfRange;
        }
        self.stage_number = self.stage_number + 1;
        self.start_combat();
        Action::Nothing
    }

    fn quit(&mut self) -> (act: Action)
        ensures
            quit_post(*old(self), *final(self), act),
    {
        self.should_quit = true;
        Action::Nothing
    }

    pub fn handle_title_key(&mut self, key: KeyPress) -> (act: Action)
        requires
            old(self).wf(),
        ensures
            final(self).wf(),
            title_key_post(*old(self), *final(self), key, act),
    {
        let last: usize = if self.has_save {
            2
        } else {
            1
        };
        match key.code {
            KeyCode::Up => {
                if self.menu_selection > 0 {
                    self.menu_selection = self.menu_selection - 1;
                }
                Action::Nothing
            },
            KeyCode::Down => {
                if self.menu_selection < last {
                    self.menu_selection = self.menu_selection + 1;
                }
                Action::Nothing
            },
            KeyCode::Enter => {
                if self.has_save {
                    match self.menu_selection {
                        0 => Action::LoadSave,
                        1 => self.new_game(),
                        2 => self.quit(),
                        _ => Action::Nothing,
                    }
                } else {
                    match self.menu_selection {
                        0 => self.new_game(),
                        1 => self.quit(),
                        _ => Action::Nothing,
                    }
                }
            },
            KeyCode::Char('q') => self.quit(),
            _ => Action::Nothing,
        }
    }

    pub fn handle_map_key(&mut self, key: KeyPress) -> (act: Action)
        requires
            old(self).wf(),
        ensures
            final(self).wf(),
            map_key_post(*old(self), *final(self), key, act),
    {
        match key.code {
            KeyCode::Enter => self.enter_shop(),
            KeyCode::Char('c') | KeyCode::Char('C') => self.next_stage(),
            KeyCode::Char('q') | KeyCode::Char('Q') => self.quit(),
            _ => Action::Nothing,
        }
    }

    pub fn handle_inventory_key(&mut self, key: KeyPress) -> (act: Action)
        requires
            old(self).wf(),
        ensures
            final(self).wf(),
            inventory_key_post(*old(self), *final(self), key, act),
    {
        match key.code {
            KeyCode::Up => {
                if self.inventory_selection > 0 {
                    self.inventory_selection = self.inventory_selection - 1;
                }
            },
            KeyCode::Down => {
                let n = self.player.books.len();
                let max: usize = if n > 0 {
                    n - 1
                } else {
                    0
                };
                if self.inventory_selection < max {
                    self.inventory_selection = self.inventory_selection + 1;
                }
            },
            KeyCode::Delete | KeyCode::Backspace => {
                let n = self.player.books.len();
                if n > 0 && self.inventory_selection < n {
                    self.player.books.remove(self.inventory_selection);
                    if self.inventory_selection > 0 && self.inventory_selection >= self.player.books.len() {
                        self.inventory_selection = self.inventory_selection - 1;
                    }
                }
            },
            KeyCode::Esc => {
                self.screen = self.previous_screen;
            },
            _ => {},
        }
        Action::Nothing
    }

    pub fn handle_game_over_key(&mut self, key: KeyPress) -> (act: Action)
        requires
            old(self).wf(),
        ensures
            final(self).wf(),
            game_over_key_post(*old(self), *final(self), key, act),
    {
        match key.code {
            KeyCode::Enter => {
                self.screen = Screen::Title;
                self.menu_selection = 0;
                Action::CheckSave
            },
            KeyCode::Char('q') | KeyCode::Char('Q') => self.quit(),
            _ => Action::Nothing,
        }
    }
}

/// `a` with the fight replaced by `c`.
pub open spec fn with_combat(a: App, c: CombatState) -> App {
    App { combat: Some(c), ..a }
}

/// Pressing `s` in a fight: a fresh board, costing the turn.
pub open spec fn shuffle_post(a: App, c: CombatState, b: App, act: Action) -> bool {
    if a.stats.tiles_shuffled == u32::MAX {
        act is OutOfRange && b == a
    } else {
        &&& act is Nothing
        &&& b.combat matches Some(d) && {
            &&& d == (CombatState { board: d.board, phase: CombatPhase::EnemyTurn { ticks_remaining: 8 }, ..c })
            &&& d.board.wf()
            &&& d.board.next_order() == 1
            &&& forall|k: int| 0 <= k < 15 ==> is_fresh(#[trigger] d.board.cells()[k])
        }
        &&& log_view(b.message_log@) == log_view(a.message_log@).push(("Board shuffled! (turn used)"@, LogColor::Info))
        &&& b == (App {
            combat: b.combat,
            stats: RunStats { tiles_shuffled: (a.stats.tiles_shuffled + 1) as u32, ..a.stats },
            message_log: b.message_log,
            rng: b.rng,
            ..a
        })
    }
}

/// Drinking the first potion: it leaves the bag, a healing potion heals, a
/// potion of purity cleanses the board and a lifesteal potion arms the
/// next word.
pub open spec fn potion_post(a: App, b: App, act: Action) -> bool {
    let pots = a.player.potions@;
    if pots.len() == 0 {
        &&& act is Nothing
        &&& log_view(b.message_log@) == log_view(a.message_log@).push(("No potions available!"@, LogColor::Warning))
        &&& b == (App { message_log: b.message_log, ..a })
    } else {
        let p = pots[0];
        let fits = a.stats.potions_used < u32::MAX && match p {
            Potion::Healing { power } => i32::MIN <= a.player.hp + power <= i32::MAX,
            _ => true,
        };
        if !fits {
            act is OutOfRange && b == a
        } else {
            let hp = match p {
                Potion::Healing { power } => healed_hp(a.player.hp as int, power as int, a.player.max_hp as int),
                _ => a.player.hp as int,
            };
            let cleanse_line = if p is Purity && a.combat is Some {
                seq![("All negative tile effects cleansed!"@, LogColor::Heal)]
            } else {
                Seq::empty()
            };
            &&& act is Nothing
            &&& b.player == (Player { hp: hp as i32, potions: b.player.potions, ..a.player })
            &&& b.player.potions@ == pots.remove(0)
            &&& b.stats == (RunStats { potions_used: (a.stats.potions_used + 1) as u32, ..a.stats })
            &&& log_view(b.message_log@) == log_view(a.message_log@).push((potion_message(p), LogColor::Heal))
                + cleanse_line
            &&& match a.combat {
                None => b.combat is None,
                Some(c) => b.combat matches Some(d) && if p is Purity {
                    &&& d == (CombatState { board: d.board, ..c })
                    &&& d.board.cells() == c.board.cells().map_values(|t: crate::tile::Tile| cleansed(t))
                    &&& d.board.next_order() == c.board.next_order()
                    &&& d.board.wf()
                } else if p is Lifesteal {
                    d == (CombatState { lifesteal_active: true, ..c })
                } else {
                    d == c
                },
            }
            &&& b == (App {
                player: b.player,
                stats: b.stats,
                message_log: b.message_log,
                combat: b.combat,
                ..a
            })
        }
    }
}

/// Pressing enter in a fight: the selected word must have three letters,
/// be in the dictionary and obey the enemy's rule; then its damage is to be
/// rolled. Otherwise the log says what is wrong.
pub open spec fn submit_post(a: App, c: CombatState, b: App, act: Action) -> bool {
    let w = c.board.word();
    let e = c.enemies@[c.current_enemy_idx as int];
    let complaint = if w.len() < 3 {
        Some("Words must be at least 3 letters!"@)
    } else if !a.dictionary.words().contains(spec_to_uppercase(w)) {
        Some("\""@ + w + "\" is not a valid word!"@)
    } else if e.word_constraint matches Some(rule) && !obeys(rule, spec_to_uppercase(w)) {
        Some("\""@ + w + "\" doesn't satisfy: "@ + rule_text(e.word_constraint->0))
    } else {
        None
    };
    match complaint {
        Some(text) => act is Nothing && log_view(b.message_log@) == log_view(a.message_log@).push(
            (text, LogColor::Warning),
        ) && b == (App { message_log: b.message_log, ..a }),
        None => act is RollDamage && b == a,
    }
}

/// The keys of a fight, which count only while the player is to move: the
/// arrows move the cursor, space picks or unpicks the tile under it,
/// backspace unpicks the last tile, escape unpicks all, enter submits the
/// word, `s` shuffles the board, `p` drinks a potion and `q` quits.
pub open spec fn combat_key_post(a: App, b: App, key: KeyPress, act: Action) -> bool {
    match a.combat {
        None => idle_post(a, b, act),
        Some(c) => if !(c.phase is PlayerInput) {
            idle_post(a, b, act)
        } else {
            let row = c.cursor.0;
            let col = c.cursor.1;
            match key.code {
                KeyCode::Up => act is Nothing && b == with_combat(
                    a,
                    CombatState {
                        cursor: (if row > 0 {
                            (row - 1) as usize
                        } else {
                            row
                        }, col),
                        ..c
                    },
                ),
                KeyCode::Down => act is Nothing && b == with_combat(
                    a,
                    CombatState {
                        cursor: (if row < BOARD_ROWS - 1 {
                            (row + 1) as usize
                        } else {
                            row
                        }, col),
                        ..c
                    },
                ),
                KeyCode::Left => act is Nothing && b == with_combat(
                    a,
                    CombatState {
                        cursor: (row, if col > 0 {
                            (col - 1) as usize
                        } else {
                            col
                        }),
                        ..c
                    },
                ),
                KeyCode::Right => act is Nothing && b == with_combat(
                    a,
                    CombatState {
                        cursor: (row, if col < BOARD_COLS - 1 {
                            (col + 1) as usize
                        } else {
                            col
                        }),
                        ..c
                    },
                ),
                KeyCode::Char(' ') => act is Nothing && (b.combat matches Some(d) && d == (CombatState {
                    board: d.board,
                    ..c
                }) && toggle_result(c.board, d.board, row as int, col as int) && b == with_combat(a, d)),
                KeyCode::Backspace => act is Nothing && (b.combat matches Some(d) && d == (CombatState {
                    board: d.board,
                    ..c
                }) && undo_result(c.board, d.board) && b == with_combat(a, d)),
                KeyCode::Esc => act is Nothing && (b.combat matches Some(d) && d == (CombatState {
                    board: d.board,
                    ..c
                }) && d.board.wf() && d.board.next_order() == 1 && d.board.cells() == c.board.cells().map_values(
                    |t: crate::tile::Tile| crate::board::cleared(t),
                ) && b == with_combat(a, d)),
                KeyCode::Enter => submit_post(a, c, b, act),
                KeyCode::Char('s') | KeyCode::Char('S') => shuffle_post(a, c, b, act),
                KeyCode::Char('p') | KeyCode::Char('P') => potion_post(a, b, act),
                KeyCode::Char('q') | KeyCode::Char('Q') => quit_post(a, b, act),
                _ => idle_post(a, b, act),
            }
        },
    }
}

impl App {
    pub fn handle_combat_key(&mut self, key: KeyPress) -> (act: Action)
        requires
            old(self).wf(),
        ensures
            final(self).wf(),
            combat_key_post(*old(self), *final(self), key, act),
    {
        let ghost a = *self;
        let mut c = match self.combat.take() {
            Some(c) => c,
            None => {
                return Action::Nothing;
            },
        };
        if !matches!(c.phase, CombatPhase::PlayerInput) {
            self.combat = Some(c);
            return Action::Nothing;
        }
        match key.code {
            KeyCode::Up => {
                if c.cursor.0 > 0 {
                    c.cursor.0 = c.cursor.0 - 1;
                }
                self.combat = Some(c);
                Action::Nothing
            },
            KeyCode::Down => {
                if c.cursor.0 < BOARD_ROWS - 1 {
                    c.cursor.0 = c.cursor.0 + 1;
                }
                self.combat = Some(c);
                Action::Nothing
            },
            KeyCode::Left => {
                if c.cursor.1 > 0 {
                    c.cursor.1 = c.cursor.1 - 1;
                }
                self.combat = Some(c);
                Action::Nothing
            },
            KeyCode::Right => {
                if c.cursor.1 < BOARD_COLS - 1 {
                    c.cursor.1 = c.cursor.1 + 1;
                }
                self.combat = Some(c);
                Action::Nothing
            },
            KeyCode::Char(' ') => {
                let row = c.cursor.0;
                let col = c.cursor.1;
                c.board.toggle_select(row, col);
                self.combat = Some(c);
                Action::Nothing
            },
            KeyCode::Backspace => {
                c.board.undo_last_select();
                self.combat = Some(c);
                Action::Nothing
            },
            KeyCode::Esc => {
                c.board.clear_selection();
                self.combat = Some(c);
                Action::Nothing
            },
            KeyCode::Enter => {
                self.combat = Some(c);
                self.try_submit_word()
            },
            KeyCode::Char('s') | KeyCode::Char('S') => {
                if self.stats.tiles_shuffled == 0xffff_ffff {
                    self.combat = Some(c);
                    return Action::OutOfRange;
                }
                c.board.shuffle(&mut self.rng);
                self.stats.tiles_shuffled = self.stats.tiles_shuffled + 1;
                c.phase = CombatPhase::EnemyTurn { ticks_remaining: 8 };
                self.combat = Some(c);
                self.log(String::from_str("Board shuffled! (turn used)"), LogColor::Info);
                Action::Nothing
            },
            KeyCode::Char('p') | KeyCode::Char('P') => {
                self.combat = Some(c);
                self.use_potion()
            },
            KeyCode::Char('q') | KeyCode::Char('Q') => {
                self.combat = Some(c);
                self.quit()
            },
            _ => {
                self.combat = Some(c);
                Action::Nothing
            },
        }
    }

    /// Drinks the first potion in the bag.
    pub fn use_potion(&mut self) -> (act: Action)
        requires
            old(self).wf(),
        ensures
            final(self).wf(),
            potion_post(*old(self), *final(self), act),
    {
        if !self.player.has_potions() {
            self.log(String::from_str("No potions available!"), LogColor::Warning);
            return Action::Nothing;
        }
        let first = self.player.potions[0];
        let fits = self.stats.potions_used < 0xffff_ffff && match first {
            Potion::Healing { power } => {
                let raised = self.player.hp as i64 + power as i64;
                -0x8000_0000 <= raised && raised <= 0x7fff_ffff
            },
            _ => true,
        };
        if !fits {
            return Action::OutOfRange;
        }
        let is_purity = matches!(first, Potion::Purity);
        let is_lifesteal = matches!(first, Potion::Lifesteal);
        let msg = self.player.use_potion(0);
        self.stats.potions_used = self.stats.potions_used + 1;
        match msg {
            Some(text) => self.log(text, LogColor::Heal),
            None => {},
        }
        let ghost mid = log_view(self.message_log@);
        if is_purity {
            match self.combat.take() {
                Some(mut c) => {
                    c.board.cleanse_effects();
                    self.combat = Some(c);
                    self.log(String::from_str("All negative tile effects cleansed!"), LogColor::Heal);
                    assert(log_view(self.message_log@) =~= mid + seq![("All negative tile effects cleansed!"@, LogColor::Heal)]);
                },
                None => {
                    assert(log_view(self.message_log@) =~= mid + Seq::empty());
                },
            }
        } else {
            assert(log_view(self.message_log@) =~= mid + Seq::empty());
        }
        if is_lifesteal {
            match self.combat.take() {
                Some(mut c) => {
                    c.lifesteal_active = true;
                    self.combat = Some(c);
                },
                None => {},
            }
        }
        Action::Nothing
    }

    /// Checks the selected word before its damage is rolled.
    pub fn try_submit_word(&mut self) -> (act: Action)
        requires
            old(self).wf(),
        ensures
            final(self).wf(),
            match old(self).combat {
                Some(c) => submit_post(*old(self), c, *final(self), act),
                None => idle_post(*old(self), *final(self), act),
            },
    {
        let (word, rule) = match &self.combat {
            Some(c) => (c.board.selected_word(), c.enemies[c.current_enemy_idx].word_constraint),
            None => {
                return Action::Nothing;
            },
        };
        if word.as_str().unicode_len() < 3 {
            self.log(String::from_str("Words must be at least 3 letters!"), LogColor::Warning);
            return Action::Nothing;
        }
        if !self.dictionary.is_word(word.as_str()) {
            let text = join3("\"", word.as_str(), "\" is not a valid word!");
            self.log(text, LogColor::Warning);
            return Action::Nothing;
        }
        match rule {
            Some(r) => {
                if !r.check(word.as_str()) {
                    let head = join3("\"", word.as_str(), "\" doesn't satisfy: ");
                    let d = r.description();
                    let text = join(head.as_str(), d.as_str());
                    self.log(text, LogColor::Warning);
                    return Action::Nothing;
                }
            },
            None => {},
        }
        Action::RollDamage
    }
}

/// The log with one more line when `cond` holds.
pub open spec fn push_if(
    log: Seq<(Seq<char>, LogColor)>,
    cond: bool,
    line: (Seq<char>, LogColor),
) -> Seq<(Seq<char>, LogColor)> {
    if cond {
        log.push(line)
    } else {
        log
    }
}

/// The log `before` once a word has landed: the damage (and whether it
/// was a critical hit), the word's definition when one was already known,
/// then the venom bonus, self-damage, lifesteal, potion lifesteal, purity
/// cleanse and bonus turn where they happened, and the enemy's fall.
pub open spec fn word_log(
    before: Seq<(Seq<char>, LogColor)>,
    w: Seq<char>,
    dealt: int,
    crit: bool,
    venom: int,
    self_damage: int,
    lifesteal: int,
    potion_heal: int,
    def: Option<Seq<char>>,
    cleansed_tile: bool,
    bonus_turn: bool,
    name: Seq<char>,
    defeated: bool,
) -> Seq<(Seq<char>, LogColor)> {
    let l0 = before.push(
        ("\""@ + w + "\" deals "@ + decimal(dealt) + " damage!"@ + if crit {
            " CRITICAL HIT!"@
        } else {
            ""@
        }, if crit {
            LogColor::Crit
        } else {
            LogColor::PlayerDamage
        }),
    );
    let l1 = push_if(l0, def is Some, ("  \""@ + def->0 + "\""@, LogColor::Normal));
    let l2 = push_if(l1, venom > 0, ("Venom Scythe bonus: +"@ + decimal(venom) + " from poison tiles!"@, LogColor::PlayerDamage));
    let l3 = push_if(l2, self_damage > 0, ("Tile effects deal "@ + decimal(self_damage) + " self-damage!"@, LogColor::EnemyDamage));
    let l4 = push_if(l3, lifesteal > 0, ("Lifesteal heals "@ + decimal(lifesteal) + " HP!"@, LogColor::Heal));
    let l5 = push_if(l4, potion_heal > 0, ("Lifesteal potion heals "@ + decimal(potion_heal) + " HP!"@, LogColor::Heal));
    let l6 = push_if(l5, cleansed_tile, ("Purity book cleansed a tile!"@, LogColor::Heal));
    let l7 = push_if(l6, bonus_turn, ("Speed book grants a bonus turn!"@, LogColor::Info));
    push_if(l7, defeated, (name + " defeated!"@, LogColor::Info))
}

/// The statistics after recording a word that dealt `dealt` and cost
/// `taken` health in self-damage.
pub open spec fn word_stats(s: RunStats, t: RunStats, w: Seq<char>, dealt: int, crit: bool, taken: int) -> bool {
    &&& t.words_submitted == s.words_submitted + 1
    &&& t.total_damage_dealt == s.total_damage_dealt + dealt
    &&& t.longest_word@ == if crate::stats::byte_len(w) > crate::stats::byte_len(s.longest_word@) {
        w
    } else {
        s.longest_word@
    }
    &&& t.highest_damage == if dealt > s.highest_damage {
        dealt
    } else {
        s.highest_damage as int
    }
    &&& t.highest_damage_word@ == if dealt > s.highest_damage {
        w
    } else {
        s.highest_damage_word@
    }
    &&& t.crits_landed == s.crits_landed + if crit {
        1int
    } else {
        0int
    }
    &&& texts(t.word_history@) == history_after(texts(s.word_history@), w)
    &&& t.total_damage_taken == s.total_damage_taken + taken
    &&& t.enemies_defeated == s.enemies_defeated
    &&& t.bosses_defeated == s.bosses_defeated
    &&& t.dodges == s.dodges
    &&& t.potions_used == s.potions_used
    &&& t.gems_earned == s.gems_earned
    &&& t.gems_spent == s.gems_spent
    &&& t.tiles_shuffled == s.tiles_shuffled
}

/// The board after a word: every picked tile is dealt anew, every other
/// stays, except the one harmful tile that a book of purity cleansed, when
/// it did.
pub open spec fn board_after_word(s: Board, t: Board, cleansed_tile: bool) -> bool {
    &&& t.wf()
    &&& t.next_order() == 1
    &&& cells_after_word(s.cells(), t.cells(), cleansed_tile)
}

/// The damage the word deals to the current enemy.
pub open spec fn word_damage(a: App, c: CombatState, damage: DamageResult) -> int {
    let e = c.enemies@[c.current_enemy_idx as int];
    hit_damage(damage.raw_damage + venom_bonus(c.board.cells(), a.player), e.defense as int)
}

/// Resolving the word with this roll stays within the integer types.
pub open spec fn word_step_fits(a: App, c: CombatState, damage: DamageResult) -> bool {
    let e = c.enemies@[c.current_enemy_idx as int];
    let dealt = word_damage(a, c, damage);
    &&& word_fits(c.board, a.player, e, damage, c.lifesteal_active)
    &&& a.stats.words_submitted < u32::MAX
    &&& a.stats.total_damage_dealt + dealt <= u64::MAX
    &&& damage.is_crit ==> a.stats.crits_landed < u32::MAX
    &&& damage.self_damage > 0 ==> a.stats.total_damage_taken + damage.self_damage <= u64::MAX
    &&& e.hp - dealt > 0 && bonus_granted(damage, a.player.books@) ==> c.turn_count < u32::MAX
}

/// The accepted word lands with the rolled damage: the enemy is hit, the
/// player's health and books change as combat resolution says, the word is
/// recorded, its definition is requested, the log tells the story and the
/// fight moves on: to the enemy's fall, a bonus turn or the attack's
/// animation.
pub open spec fn finish_post(a: App, b: App, damage: DamageResult, act: Action) -> bool {
    match a.combat {
        None => idle_post(a, b, act),
        Some(c) => if !(c.phase is PlayerInput) {
            idle_post(a, b, act)
        } else if !word_step_fits(a, c, damage) {
            act is OutOfRange && b == a
        } else {
            let idx = c.current_enemy_idx as int;
            let e = c.enemies@[idx];
            let w = c.board.word();
            let venom = venom_bonus(c.board.cells(), a.player);
            let dealt = word_damage(a, c, damage);
            let hp = if e.hp - dealt > 0 {
                e.hp - dealt
            } else {
                0
            };
            let defeated = hp <= 0;
            let potion_heal = if c.lifesteal_active {
                dealt / 2
            } else {
                0
            };
            let books = a.player.books@.map_values(|bk: Book| book_after_word(bk));
            let key = spec_to_uppercase(w);
            let cached = a.definitions@.contains_key(key);
            let def = if cached && a.definitions@[key] is Some {
                a.definitions@[key]
            } else {
                None
            };
            let taken = if damage.self_damage > 0 {
                damage.self_damage as int
            } else {
                0
            };
            &&& if cached {
                act is Nothing
            } else {
                act matches Action::LookUp(lw) && lw@ == crate::text::spec_to_lowercase(w)
            }
            &&& b.player == (Player {
                hp: hp_after_word(a.player, damage, defeated, dealt, c.lifesteal_active, books) as i32,
                books: b.player.books,
                ..a.player
            })
            &&& b.player.books@ == books
            &&& word_stats(a.stats, b.stats, w, dealt, damage.is_crit, taken)
            &&& b.definitions@ == if cached {
                a.definitions@
            } else {
                a.definitions@.insert(key, None)
            }
            &&& b.combat matches Some(d) && {
                &&& exists|pc: bool|
                    #[trigger] board_after_word(c.board, d.board, pc) && log_view(b.message_log@) == word_log(
                        log_view(a.message_log@),
                        w,
                        dealt,
                        damage.is_crit,
                        venom,
                        damage.self_damage as int,
                        lifesteal_gained(damage, defeated),
                        potion_heal,
                        def,
                        pc,
                        bonus_granted(damage, a.player.books@),
                        e.name@,
                        defeated,
                    )
                &&& d.enemies@ == c.enemies@.update(idx, Enemy { hp: hp as i32, ..e })
                &&& d.current_enemy_idx == c.current_enemy_idx
                &&& d.cursor == c.cursor
                &&& !d.lifesteal_active
                &&& if defeated {
                    d.phase == CombatPhase::EnemyDefeated { ticks_remaining: 15 } && d.turn_count == c.turn_count
                } else if bonus_granted(damage, a.player.books@) {
                    d.phase == CombatPhase::PlayerInput && d.turn_count == c.turn_count + 1
                } else {
                    &&& d.turn_count == c.turn_count
                    &&& d.phase matches CombatPhase::PlayerAttackAnim { damage: pd, is_crit: pc, word: pw, ticks_remaining: pt }
                        && pd == dealt && pc == damage.is_crit && pw@ == w && pt == 10
                }
            }
            &&& b == (App {
                player: b.player,
                stats: b.stats,
                definitions: b.definitions,
                combat: b.combat,
                message_log: b.message_log,
                rng: b.rng,
                ..a
            })
        },
    }
}

impl App {
    /// Writes what happened when a word landed into the log.
    fn log_word_result(&mut self, result: &crate::combat::CombatResult, def: Option<String>, name: &str)
        ensures
            log_view(final(self).message_log@) == word_log(
                log_view(old(self).message_log@),
                result.word@,
                result.damage_dealt as int,
                result.is_crit,
                result.venom_bonus as int,
                result.self_damage as int,
                result.lifesteal as int,
                result.potion_lifesteal as int,
                crate::definitions::opt_text(def),
                result.purity_cleansed,
                result.bonus_turn,
                name@,
                result.enemy_defeated,
            ),
            *final(self) == (App { message_log: final(self).message_log, ..*old(self) }),
    {
        let n = int_to_string(result.damage_dealt as i64);
        let head = join3("\"", result.word.as_str(), "\" deals ");
        let body = join3(head.as_str(), n.as_str(), " damage!");
        let crit_text = if result.is_crit {
            " CRITICAL HIT!"
        } else {
            ""
        };
        let line = join(body.as_str(), crit_text);
        let color = if result.is_crit {
            LogColor::Crit
        } else {
            LogColor::PlayerDamage
        };
        self.log(line, color);
        match def {
            Some(d) => {
                let text = join3("  \"", d.as_str(), "\"");
                self.log(text, LogColor::Normal);
            },
            None => {},
        }
        if result.venom_bonus > 0 {
            let v = int_to_string(result.venom_bonus as i64);
            let text = join3("Venom Scythe bonus: +", v.as_str(), " from poison tiles!");
            self.log(text, LogColor::PlayerDamage);
        }
        if result.self_damage > 0 {
            let v = int_to_string(result.self_damage as i64);
            let text = join3("Tile effects deal ", v.as_str(), " self-damage!");
            self.log(text, LogColor::EnemyDamage);
        }
        if result.lifesteal > 0 {
            let v = int_to_string(result.lifesteal as i64);
            let text = join3("Lifesteal heals ", v.as_str(), " HP!");
            self.log(text, LogColor::Heal);
        }
        if result.potion_lifesteal > 0 {
            let v = int_to_string(result.potion_lifesteal as i64);
            let text = join3("Lifesteal potion heals ", v.as_str(), " HP!");
            self.log(text, LogColor::Heal);
        }
        if result.purity_cleansed {
            self.log(String::from_str("Purity book cleansed a tile!"), LogColor::Heal);
        }
        if result.bonus_turn {
            self.log(String::from_str("Speed book grants a bonus turn!"), LogColor::Info);
        }
        if result.enemy_defeated {
            let text = join(name, " defeated!");
            self.log(text, LogColor::Info);
        }
    }

    /// Whether landing a word with this roll stays within the integer types;
    /// `c` is the fight, held apart from the state for the moment.
    fn word_step_can_apply(&self, c: &CombatState, damage: DamageResult) -> (r: bool)
        requires
            combat_wf(*c),
        ensures
            r == word_step_fits(*self, *c, damage),
    {
        let idx = c.current_enemy_idx;
        if !word_can_resolve(&c.board, &self.player, &c.enemies[idx], damage, c.lifesteal_active) {
            return false;
        }
        let venom = crate::combat::venom_of(&c.board, &self.player);
        let total: i32 = damage.raw_damage + venom;
        let over: i32 = total - c.enemies[idx].defense;
        let dealt: i32 = if over > 1 {
            over
        } else {
            1
        };
        let alive_after = c.enemies[idx].hp - dealt > 0;
        let bonus = damage.bonus_turn && crate::combat::first_book_level(&self.player.books, BookKind::Speed).is_some();
        !(self.stats.words_submitted == 0xffff_ffff || self.stats.total_damage_dealt > 0xffff_ffff_ffff_ffff
            - dealt as u64 || (damage.is_crit && self.stats.crits_landed == 0xffff_ffff) || (damage.self_damage
            > 0 && self.stats.total_damage_taken > 0xffff_ffff_ffff_ffff - damage.self_damage as u64) || (
        alive_after && bonus && c.turn_count == 0xffff_ffff))
    }

    /// The blow itself: combat resolution and the statistics it feeds; `c`
    /// is the fight, held apart from the state for the moment.
    fn strike(&mut self, c: &mut CombatState, damage: DamageResult) -> (r: crate::combat::CombatResult)
        requires
            combat_wf(*old(c)),
            word_step_fits(*old(self), *old(c), damage),
        ensures
            ({
                let a = *old(self);
                let c0 = *old(c);
                let e = c0.enemies@[c0.current_enemy_idx as int];
                let dealt = word_damage(a, c0, damage);
                let hp = if e.hp - dealt > 0 {
                    e.hp - dealt
                } else {
                    0
                };
                let books = a.player.books@.map_values(|bk: Book| book_after_word(bk));
                &&& r.word@ == c0.board.word()
                &&& r.damage_dealt == dealt
                &&& r.venom_bonus == venom_bonus(c0.board.cells(), a.player)
                &&& r.is_crit == damage.is_crit
                &&& r.self_damage == damage.self_damage
                &&& r.lifesteal == lifesteal_gained(damage, hp <= 0)
                &&& r.bonus_turn == bonus_granted(damage, a.player.books@)
                &&& r.potion_lifesteal == if c0.lifesteal_active {
                    dealt / 2
                } else {
                    0
                }
                &&& r.enemy_defeated == (hp <= 0)
                &&& final(self).player == (Player {
                    hp: hp_after_word(a.player, damage, hp <= 0, dealt, c0.lifesteal_active, books) as i32,
                    books: final(self).player.books,
                    ..a.player
                })
                &&& final(self).player.books@ == books
                &&& word_stats(a.stats, final(self).stats, c0.board.word(), dealt, damage.is_crit, if damage.self_damage > 0 {
                    damage.self_damage as int
                } else {
                    0
                })
                &&& *final(self) == (App { player: final(self).player, stats: final(self).stats, rng: final(self).rng, ..a })
                &&& board_after_word(c0.board, final(c).board, r.purity_cleansed)
                &&& final(c).enemies@ == c0.enemies@.update(c0.current_enemy_idx as int, Enemy { hp: hp as i32, ..e })
                &&& *final(c) == (CombatState {
                    board: final(c).board,
                    enemies: final(c).enemies,
                    lifesteal_active: false,
                    ..c0
                })
            }),
    {
        let idx = c.current_enemy_idx;
        let potion = c.lifesteal_active;
        c.lifesteal_active = false;
        let result = resolve_player_word(
            &mut c.board,
            &mut self.player,
            &mut c.enemies[idx],
            &mut self.rng,
            potion,
            damage,
        );
        self.stats.record_word(result.word.as_str(), result.damage_dealt, result.is_crit);
        if result.self_damage > 0 {
            self.stats.record_damage_taken(result.self_damage);
        }
        result
    }

    /// Asks for the word's definition and tells the story of the blow.
    fn announce_word(&mut self, r: &crate::combat::CombatResult, name: &str) -> (act: Action)
        requires
            old(self).definitions.wf(),
        ensures
            ({
                let a = *old(self);
                let key = spec_to_uppercase(r.word@);
                let cached = a.definitions@.contains_key(key);
                &&& if cached {
                    act is Nothing
                } else {
                    act matches Action::LookUp(lw) && lw@ == crate::text::spec_to_lowercase(r.word@)
                }
                &&& final(self).definitions.wf()
                &&& final(self).definitions@ == if cached {
                    a.definitions@
                } else {
                    a.definitions@.insert(key, None)
                }
                &&& log_view(final(self).message_log@) == word_log(
                    log_view(a.message_log@),
                    r.word@,
                    r.damage_dealt as int,
                    r.is_crit,
                    r.venom_bonus as int,
                    r.self_damage as int,
                    r.lifesteal as int,
                    r.potion_lifesteal as int,
                    if cached && a.definitions@[key] is Some {
                        a.definitions@[key]
                    } else {
                        None
                    },
                    r.purity_cleansed,
                    r.bonus_turn,
                    name@,
                    r.enemy_defeated,
                )
                &&& *final(self) == (App {
                    definitions: final(self).definitions,
                    message_log: final(self).message_log,
                    ..a
                })
            }),
    {
        let fetch = self.definitions.request(r.word.as_str());
        let def: Option<String> = match self.definitions.get(r.word.as_str()) {
            Some(Some(d)) => Some(d),
            _ => None,
        };
        self.log_word_result(r, def, name);
        match fetch {
            Some(lw) => Action::LookUp(lw),
            None => Action::Nothing,
        }
    }

    /// Lands the accepted word with the damage the caller rolled for it.
    #[verifier::rlimit(40)]
    pub fn finish_word(&mut self, damage: DamageResult) -> (act: Action)
        requires
            old(self).wf(),
        ensures
            final(self).wf(),
            finish_post(*old(self), *final(self), damage, act),
    {
        let ghost a = *self;
        let mut c = match self.combat.take() {
            Some(c) => c,
            None => {
                return Action::Nothing;
            },
        };
        if !matches!(c.phase, CombatPhase::PlayerInput) {
            self.combat = Some(c);
            return Action::Nothing;
        }
        if !self.word_step_can_apply(&c, damage) {
            self.combat = Some(c);
            return Action::OutOfRange;
        }
        let ghost c0 = c;
        let result = self.strike(&mut c, damage);
        let idx = c.current_enemy_idx;
        let act = self.announce_word(&result, c.enemies[idx].name.as_str());
        if result.enemy_defeated {
            c.phase = CombatPhase::EnemyDefeated { ticks_remaining: 15 };
        } else if result.bonus_turn {
            c.phase = CombatPhase::PlayerInput;
            c.turn_count = c.turn_count + 1;
        } else {
            c.phase = CombatPhase::PlayerAttackAnim {
                damage: result.damage_dealt,
                is_crit: result.is_crit,
                word: result.word,
                ticks_remaining: 10,
            };
        }
        self.combat = Some(c);
        proof {
            assert(board_after_word(c0.board, c.board, result.purity_cleansed));
        }
        act
    }
}

/// `q` is `p` after buying `item`, as the shop says.
pub open spec fn bought(item: ShopItem, p: Player, q: Player) -> bool {
    let after = after_purchase(item, p);
    &&& q.hp == after.hp
    &&& q.max_hp == after.max_hp
    &&& q.base_attack == after.base_attack
    &&& q.armor == after.armor
    &&& q.dodge_permille == after.dodge_permille
    &&& q.crit_permille == after.crit_permille
    &&& q.crit_multiplier_percent == after.crit_multiplier_percent
    &&& q.gems == after.gems
    &&& q.weapon == after.weapon
    &&& q.max_potions == after.max_potions
    &&& q.upgrades == after.upgrades
    &&& q.books@ == books_after(item, p)
    &&& q.potions@ == potions_after(item, p)
}

/// Pressing enter in the shop: the highlighted item is bought when the
/// player can afford it (and has room for it); the shop then offers anew,
/// keeping the highlight where it can. Otherwise the shop says so.
pub open spec fn buy_post(a: App, s: ShopScreenState, b: App, act: Action) -> bool {
    let sel = s.selected_index;
    let item = s.items@[sel as int];
    let price = item_price(item, a.player);
    if !crate::shop::price_fits(item, a.player) {
        act is OutOfRange && b == a
    } else if !affordable(item, a.player) {
        &&& act is Nothing
        &&& b.shop_state matches Some(t) && t == (ShopScreenState { message: t.message, ..s })
            && (t.message matches Some(m) && m@ == "Can't buy that!"@)
        &&& b == (App { shop_state: b.shop_state, ..a })
    } else if !purchase_fits(item, a.player) || a.stats.gems_spent + price > u64::MAX || a.stage_number + 30
        > i32::MAX {
        act is OutOfRange && b == a
    } else {
        &&& act is Nothing
        &&& bought(item, a.player, b.player)
        &&& b.stats == (RunStats { gems_spent: (a.stats.gems_spent + price) as u64, ..a.stats })
        &&& b.shop_state matches Some(t) && {
            &&& t.items@ == shop_offer(a.stage_number as int, b.player)
            &&& (t.message matches Some(m) && m@ == purchase_message(item, b.player))
            &&& t.selected_index == if sel >= t.items@.len() {
                t.items@.len() - 1
            } else {
                sel as int
            }
        }
        &&& b == (App { player: b.player, stats: b.stats, shop_state: b.shop_state, ..a })
    }
}

/// The keys of the shop: up and down move the highlight, enter buys, `c`
/// goes on to the next stage, `i` opens the inventory and `q` quits.
pub open spec fn shop_key_post(a: App, b: App, key: KeyPress, act: Action) -> bool {
    match a.shop_state {
        None => idle_post(a, b, act),
        Some(s) => {
            let sel = s.selected_index;
            match key.code {
                KeyCode::Up => act is Nothing && b == (App {
                    shop_state: Some(
                        ShopScreenState {
                            selected_index: if sel > 0 {
                                (sel - 1) as usize
                            } else {
                                sel
                            },
                            ..s
                        },
                    ),
                    ..a
                }),
                KeyCode::Down => act is Nothing && b == (App {
                    shop_state: Some(
                        ShopScreenState {
                            selected_index: if sel + 1 < s.items@.len() {
                                (sel + 1) as usize
                            } else {
                                sel
                            },
                            ..s
                        },
                    ),
                    ..a
                }),
                KeyCode::Enter => buy_post(a, s, b, act),
                KeyCode::Char('c') | KeyCode::Char('C') => next_stage_post(a, b, act),
                KeyCode::Char('i') | KeyCode::Char('I') => act is Nothing && b == (App {
                    previous_screen: Screen::Shop,
                    screen: Screen::Inventory,
                    ..a
                }),
                KeyCode::Char('q') | KeyCode::Char('Q') => quit_post(a, b, act),
                _ => idle_post(a, b, act),
            }
        },
    }
}

impl App {
    /// Buys the highlighted item; `s` is the shop's screen, held apart from
    /// the state for the moment.
    fn buy_selected(&mut self, s: &mut ShopScreenState) -> (act: Action)
        requires
            old(self).wf(),
            old(s).selected_index < old(s).items@.len(),
        ensures
            final(self).wf(),
            final(s).selected_index < final(s).items@.len(),
            buy_post(
                App { shop_state: Some(*old(s)), ..*old(self) },
                *old(s),
                App { shop_state: Some(*final(s)), ..*final(self) },
                act,
            ),
    {
        let item = s.items[s.selected_index];
        if !crate::shop::price_can_compute(&item, &self.player) {
            return Action::OutOfRange;
        }
        let cost = cost_for_item(&item, &self.player);
        if !crate::shop::can_buy(&item, &self.player) {
            s.message = Some(String::from_str("Can't buy that!"));
            return Action::Nothing;
        }
        if !purchase_can_apply(&item, &self.player) || self.stats.gems_spent > 0xffff_ffff_ffff_ffff - cost
            || self.stage_number > 0x7fff_ffff - 30 {
            return Action::OutOfRange;
        }
        let msg = buy_item(&item, &mut self.player);
        self.stats.gems_spent = self.stats.gems_spent + cost;
        s.message = msg;
        s.items = generate_shop_items(self.stage_number, &self.player);
        if s.selected_index >= s.items.len() {
            s.selected_index = s.items.len() - 1;
        }
        Action::Nothing
    }

    pub fn handle_shop_key(&mut self, key: KeyPress) -> (act: Action)
        requires
            old(self).wf(),
        ensures
            final(self).wf(),
            shop_key_post(*old(self), *final(self), key, act),
    {
        let mut s = match self.shop_state.take() {
            Some(s) => s,
            None => {
                return Action::Nothing;
            },
        };
        assert(s.selected_index < s.items@.len());
        match key.code {
            KeyCode::Up => {
                if s.selected_index > 0 {
                    s.selected_index = s.selected_index - 1;
                }
                self.shop_state = Some(s);
                Action::Nothing
            },
            KeyCode::Down => {
                if s.selected_index < s.items.len() - 1 {
                    s.selected_index = s.selected_index + 1;
                }
                self.shop_state = Some(s);
                Action::Nothing
            },
            KeyCode::Enter => {
                let act = self.buy_selected(&mut s);
                self.shop_state = Some(s);
                act
            },
            KeyCode::Char('c') | KeyCode::Char('C') => {
                self.shop_state = Some(s);
                self.next_stage()
            },
            KeyCode::Char('i') | KeyCode::Char('I') => {
                self.shop_state = Some(s);
                self.previous_screen = Screen::Shop;
                self.screen = Screen::Inventory;
                Action::Nothing
            },
            KeyCode::Char('q') | KeyCode::Char('Q') => {
                self.shop_state = Some(s);
                self.quit()
            },
            _ => {
                self.shop_state = Some(s);
                Action::Nothing
            },
        }
    }
}

/// Some line among the last ten of the log holds `d`.
pub open spec fn logged_recently(log: Seq<(Seq<char>, LogColor)>, d: Seq<char>) -> bool {
    exists|i: int| log.len() - 10 <= i < log.len() && 0 <= i && contains_text(#[trigger] log[i].0, d)
}

/// The definition of the latest word, once it has arrived, unless one of
/// the last ten lines of the log already holds it.
pub open spec fn pending_lines(a: App) -> Seq<(Seq<char>, LogColor)> {
    let h = a.stats.word_history@;
    if h.len() == 0 {
        Seq::empty()
    } else {
        let k = spec_to_uppercase(h.last()@);
        if a.definitions@.contains_key(k) && a.definitions@[k] is Some {
            let d = a.definitions@[k]->0;
            if logged_recently(log_view(a.message_log@), d) {
                Seq::empty()
            } else {
                seq![("  "@ + d, LogColor::Normal)]
            }
        } else {
            Seq::empty()
        }
    }
}

/// The enemy's blow can be dealt without leaving the integer types,
/// whichever way the dodge roll goes.
pub open spec fn enemy_strike_fits(a: App, c: CombatState) -> bool {
    let e = c.enemies@[c.current_enemy_idx as int];
    &&& enemy_turn_fits(c.board, a.player, e)
    &&& dodge_permille(a.player) > 0 ==> a.stats.dodges < u32::MAX
    &&& dodge_permille(a.player) < 1000 ==> a.stats.total_damage_taken + hit_damage(
        e.attack as int,
        a.player.armor as int,
    ) <= u64::MAX
}

/// How much a book of health raises the maximum health at the end of a
/// stage: five per level of the first one.
pub open spec fn stage_max_hp_raise(books: Seq<Book>) -> int {
    match crate::combat::first_level(books, BookKind::Health) {
        Some(l) => 5 * l,
        None => 0,
    }
}

/// Claiming a stage's gems stays within the integer types.
pub open spec fn victory_fits(a: App, gems: u64) -> bool {
    let amount = 10 + (a.stage_number as i32) as int;
    &&& a.player.max_hp + stage_max_hp_raise(a.player.books@) <= i32::MAX
    &&& a.player.gems + gems <= u64::MAX
    &&& a.stats.gems_earned + gems <= u64::MAX
    &&& a.stage_number < u32::MAX
    &&& i32::MIN <= amount <= i32::MAX
    &&& i32::MIN <= a.player.hp + amount <= i32::MAX
}

/// The tick would leave the integer types.
pub open spec fn tick_out_of_range(a: App) -> bool {
    a.screen == Screen::Combat && (a.combat matches Some(c) && match c.phase {
        CombatPhase::EnemyTurn { ticks_remaining } => ticks_remaining == 0 && !enemy_strike_fits(a, c),
        CombatPhase::EnemyHitAnim { ticks_remaining, .. } => ticks_remaining == 0 && a.player.hp > 0
            && c.turn_count == u32::MAX,
        CombatPhase::EnemyDefeated { ticks_remaining } => ticks_remaining == 0 && c.current_enemy_idx + 1
            < c.enemies@.len() && (a.stats.enemies_defeated == u32::MAX || (c.enemies@[
            c.current_enemy_idx as int
        ].is_boss && a.stats.bosses_defeated == u32::MAX)),
        CombatPhase::StageVictory { gems_earned, ticks_remaining } => ticks_remaining == 0 && !victory_fits(
            a,
            gems_earned,
        ),
        _ => false,
    })
}

/// Only the fight's phase moves on; the log is `before`.
pub open spec fn phase_post(a: App, c: CombatState, before: Seq<(Seq<char>, LogColor)>, b: App, act: Action, phase: CombatPhase) -> bool {
    &&& act is Nothing
    &&& log_view(b.message_log@) == before
    &&& b == (App { combat: Some(CombatState { phase, ..c }), message_log: b.message_log, ..a })
}

/// The enemy's turn: its blow lands or is dodged, then it uses its
/// abilities in order, and the hit animation begins.
pub open spec fn enemy_strike_post(a: App, c: CombatState, before: Seq<(Seq<char>, LogColor)>, b: App, act: Action) -> bool {
    let idx = c.current_enemy_idx as int;
    let e = c.enemies@[idx];
    let hit = hit_damage(e.attack as int, a.player.armor as int);
    let st = after_abilities((e.hp as int, e.attack as int, 0), e.max_hp as int, e.abilities@);
    let lines = e.abilities@.map_values(|ab: EnemyAbility| (e.name@ + ": "@ + ability_message(ab), LogColor::Warning));
    &&& act is Nothing
    &&& b.combat matches Some(d) && (d.phase matches CombatPhase::EnemyHitAnim { damage: dmg, dodged: dg, ticks_remaining: t }
        && {
        &&& t == 6
        &&& d == (CombatState { board: d.board, enemies: d.enemies, phase: d.phase, ..c })
        &&& d.board.wf()
        &&& d.board.next_order() == c.board.next_order()
        &&& enemy_turn_board(c.board.cells(), d.board.cells(), e.abilities@)
        &&& d.enemies@ == c.enemies@.update(idx, Enemy { hp: st.0 as i32, attack: st.1 as i32, ..e })
        &&& dodge_permille(a.player) >= 1000 ==> dg
        &&& dodge_permille(a.player) == 0 ==> !dg
        &&& if dg {
            &&& dmg == 0
            &&& b.player == a.player
            &&& b.stats == (RunStats { dodges: (a.stats.dodges + 1) as u32, ..a.stats })
            &&& log_view(b.message_log@) == before.push(("You dodged the attack!"@, LogColor::Info)) + lines
        } else {
            &&& dmg == hit
            &&& b.player == (Player {
                hp: (if a.player.hp - hit > 0 {
                    a.player.hp - hit
                } else {
                    0
                }) as i32,
                ..a.player
            })
            &&& b.stats == (RunStats { total_damage_taken: (a.stats.total_damage_taken + hit) as u64, ..a.stats })
            &&& log_view(b.message_log@) == before.push(
                (e.name@ + " attacks for "@ + decimal(hit) + " damage!"@, LogColor::EnemyDamage),
            ) + lines
        }
    })
    &&& b == (App { player: b.player, stats: b.stats, combat: b.combat, message_log: b.message_log, rng: b.rng, ..a })
}

/// The stage is won: its gems are paid out, a book of health raises the
/// maximum health, the run is to be saved at the next stage, and the map
/// opens after a small heal.
pub open spec fn victory_post(a: App, gems: u64, before: Seq<(Seq<char>, LogColor)>, b: App, act: Action) -> bool {
    let p1 = Player {
        gems: (a.player.gems + gems) as u64,
        max_hp: (a.player.max_hp + stage_max_hp_raise(a.player.books@)) as i32,
        ..a.player
    };
    let s1 = RunStats { gems_earned: (a.stats.gems_earned + gems) as u64, ..a.stats };
    let amount = 10 + (a.stage_number as i32) as int;
    &&& act matches Action::Save { player: sp, stage_number: sn, stats: ss } && same_player(sp, p1) && sn
        == a.stage_number + 1 && same_stats(ss, s1)
    &&& log_view(b.message_log@) == before.push(
        ("Stage "@ + decimal(a.stage_number as int) + " complete! Earned "@ + decimal(gems as int) + " gems!"@, LogColor::Info),
    )
    &&& b == (App {
        player: Player { hp: healed_hp(p1.hp as int, amount, p1.max_hp as int) as i32, ..p1 },
        stats: s1,
        combat: None,
        screen: Screen::StageMap,
        message_log: b.message_log,
        ..a
    })
}

/// One tick of the clock in a fight, the log so far being `before`:
/// animations count down, and when one runs out the fight moves on: the
/// attack's animation gives way to the enemy's turn, whose end strikes;
/// after the hit the player is beaten or moves again; a fallen enemy gives
/// way to the walk to the next one, or the stage's reward; the victory
/// pays out; a defeat ends the run.
pub open spec fn tick_phase_post(a: App, before: Seq<(Seq<char>, LogColor)>, b: App, act: Action) -> bool {
    if a.screen != Screen::Combat || a.combat is None {
        act is Nothing && log_view(b.message_log@) == before && b == (App { message_log: b.message_log, ..a })
    } else {
        let c = a.combat->0;
        match c.phase {
            CombatPhase::PlayerAttackAnim { damage, is_crit, word, ticks_remaining: t } => phase_post(
                a,
                c,
                before,
                b,
                act,
                if t > 0 {
                    CombatPhase::PlayerAttackAnim { damage, is_crit, word, ticks_remaining: (t - 1) as u8 }
                } else {
                    CombatPhase::EnemyTurn { ticks_remaining: 8 }
                },
            ),
            CombatPhase::EnemyTurn { ticks_remaining: t } => if t > 0 {
                phase_post(a, c, before, b, act, CombatPhase::EnemyTurn { ticks_remaining: (t - 1) as u8 })
            } else {
                enemy_strike_post(a, c, before, b, act)
            },
            CombatPhase::EnemyHitAnim { damage, dodged, ticks_remaining: t } => if t > 0 {
                phase_post(a, c, before, b, act, CombatPhase::EnemyHitAnim { damage, dodged, ticks_remaining: (t - 1) as u8 })
            } else if a.player.hp <= 0 {
                &&& act is Nothing
                &&& log_view(b.message_log@) == before.push(("You have been defeated..."@, LogColor::EnemyDamage))
                &&& b == (App {
                    combat: Some(CombatState { phase: CombatPhase::Defeat, ..c }),
                    message_log: b.message_log,
                    ..a
                })
            } else {
                &&& act is Nothing
                &&& log_view(b.message_log@) == before
                &&& b == (App {
                    combat: Some(
                        CombatState {
                            phase: CombatPhase::PlayerInput,
                            turn_count: (c.turn_count + 1) as u32,
                            ..c
                        },
                    ),
                    message_log: b.message_log,
                    ..a
                })
            },
            CombatPhase::EnemyDefeated { ticks_remaining: t } => if t > 0 {
                phase_post(a, c, before, b, act, CombatPhase::EnemyDefeated { ticks_remaining: (t - 1) as u8 })
            } else {
                let e = c.enemies@[c.current_enemy_idx as int];
                if c.current_enemy_idx + 1 < c.enemies@.len() {
                    &&& act is Nothing
                    &&& b.stats == (RunStats {
                        enemies_defeated: (a.stats.enemies_defeated + 1) as u32,
                        bosses_defeated: (a.stats.bosses_defeated + if e.is_boss {
                            1int
                        } else {
                            0int
                        }) as u32,
                        ..a.stats
                    })
                    &&& log_view(b.message_log@) == before.push(("Moving to next encounter..."@, LogColor::Info))
                    &&& b == (App {
                        combat: Some(CombatState { phase: CombatPhase::Walking { ticks_remaining: 20 }, ..c }),
                        stats: b.stats,
                        message_log: b.message_log,
                        ..a
                    })
                } else {
                    &&& act matches Action::StageReward { was_boss } && was_boss == e.is_boss
                    &&& log_view(b.message_log@) == before
                    &&& b == (App { message_log: b.message_log, ..a })
                }
            },
            CombatPhase::Walking { ticks_remaining: t } => if t > 0 {
                phase_post(a, c, before, b, act, CombatPhase::Walking { ticks_remaining: (t - 1) as u8 })
            } else {
                let next: usize = if c.current_enemy_idx + 1 < c.enemies@.len() {
                    (c.current_enemy_idx + 1) as usize
                } else {
                    c.current_enemy_idx
                };
                &&& act is Nothing
                &&& log_view(b.message_log@) == before.push(
                    ("A new foe appears: "@ + c.enemies@[next as int].name@ + "!"@, LogColor::Warning),
                )
                &&& b == (App {
                    combat: Some(CombatState { phase: CombatPhase::PlayerInput, current_enemy_idx: next, ..c }),
                    message_log: b.message_log,
                    ..a
                })
            },
            CombatPhase::StageVictory { gems_earned, ticks_remaining: t } => if t > 0 {
                phase_post(a, c, before, b, act, CombatPhase::StageVictory { gems_earned, ticks_remaining: (t - 1) as u8 })
            } else {
                victory_post(a, gems_earned, before, b, act)
            },
            CombatPhase::Defeat => act is DeleteSave && log_view(b.message_log@) == before && b == (App {
                screen: Screen::GameOver,
                message_log: b.message_log,
                ..a
            }),
            CombatPhase::PlayerInput => act is Nothing && log_view(b.message_log@) == before && b == (App {
                message_log: b.message_log,
                ..a
            }),
        }
    }
}

/// One tick of the clock: first the definition of the latest word is
/// logged if it has just arrived, then the fight moves on.
pub open spec fn tick_post(a: App, b: App, act: Action) -> bool {
    if tick_out_of_range(a) {
        act is OutOfRange && b == a
    } else {
        tick_phase_post(a, log_view(a.message_log@) + pending_lines(a), b, act)
    }
}

impl App {
    /// Logs the definition of the latest word once it has arrived, unless
    /// one of the last ten lines already holds it.
    fn check_pending_definitions(&mut self)
        requires
            old(self).definitions.wf(),
        ensures
            log_view(final(self).message_log@) == log_view(old(self).message_log@) + pending_lines(*old(self)),
            *final(self) == (App { message_log: final(self).message_log, ..*old(self) }),
    {
        let ghost a = *self;
        let n = self.stats.word_history.len();
        if n == 0 {
            assert(log_view(self.message_log@) =~= log_view(a.message_log@) + pending_lines(a));
            return;
        }
        let def = match self.definitions.get(self.stats.word_history[n - 1].as_str()) {
            Some(Some(d)) => d,
            _ => {
                assert(log_view(self.message_log@) =~= log_view(a.message_log@) + pending_lines(a));
                return;
            },
        };
        let len = self.message_log.len();
        let start: usize = if len > 10 {
            len - 10
        } else {
            0
        };
        let ghost lv = log_view(self.message_log@);
        let mut i: usize = start;
        let mut found = false;
        while i < len
            invariant
                len == self.message_log@.len(),
                lv == log_view(self.message_log@),
                start <= i <= len,
                start == if len > 10 {
                    len - 10
                } else {
                    0
                },
                found == exists|j: int| start <= j < i && contains_text(#[trigger] lv[j].0, def@),
            decreases len - i,
        {
            if text_contains(self.message_log[i].text.as_str(), def.as_str()) {
                found = true;
            }
            proof {
                assert(lv[i as int].0 == self.message_log@[i as int].text@);
            }
            i = i + 1;
        }
        proof {
            assert(found == logged_recently(lv, def@));
        }
        if !found {
            let line = join("  ", def.as_str());
            self.log(line, LogColor::Normal);
        }
        assert(log_view(self.message_log@) =~= log_view(a.message_log@) + pending_lines(a));
    }

    /// Whether this tick would leave the integer types.
    fn tick_would_overflow(&self) -> (r: bool)
        requires
            self.wf(),
        ensures
            r == tick_out_of_range(*self),
    {
        if self.screen != Screen::Combat {
            return false;
        }
        match &self.combat {
            None => false,
            Some(c) => match &c.phase {
                CombatPhase::EnemyTurn { ticks_remaining } => *ticks_remaining == 0 && !self.enemy_strike_can_apply(c),
                CombatPhase::EnemyHitAnim { ticks_remaining, .. } => *ticks_remaining == 0 && self.player.hp > 0
                    && c.turn_count == 0xffff_ffff,
                CombatPhase::EnemyDefeated { ticks_remaining } => *ticks_remaining == 0 && c.current_enemy_idx
                    < c.enemies.len() - 1 && (self.stats.enemies_defeated == 0xffff_ffff || (
                c.enemies[c.current_enemy_idx].is_boss && self.stats.bosses_defeated == 0xffff_ffff)),
                CombatPhase::StageVictory { gems_earned, ticks_remaining } => *ticks_remaining == 0
                    && !self.victory_can_apply(*gems_earned),
                _ => false,
            },
        }
    }

    fn enemy_strike_can_apply(&self, c: &CombatState) -> (r: bool)
        requires
            combat_wf(*c),
        ensures
            r == enemy_strike_fits(*self, *c),
    {
        let e = &c.enemies[c.current_enemy_idx];
        if !enemy_turn_can_resolve(&c.board, &self.player, e) {
            return false;
        }
        let w = self.player.weapon;
        let bonus: u64 = if w.kind == crate::equipment::WeaponKind::BasicScythe {
            2 * w.level as u64
        } else {
            0
        };
        let chance: u64 = self.player.dodge_permille as u64 + bonus;
        let diff: i64 = e.attack as i64 - self.player.armor as i64;
        let hit: i64 = if diff > 1 {
            diff
        } else {
            1
        };
        !((chance > 0 && self.stats.dodges == 0xffff_ffff) || (chance < 1000 && self.stats.total_damage_taken
            > 0xffff_ffff_ffff_ffff - hit as u64))
    }

    fn victory_can_apply(&self, gems: u64) -> (r: bool)
        ensures
            r == victory_fits(*self, gems),
    {
        let amount: i64 = 10 + (#[verifier::truncate] (self.stage_number as i32)) as i64;
        let raised: i64 = self.player.hp as i64 + amount;
        let raise: i64 = match crate::combat::first_book_level(&self.player.books, BookKind::Health) {
            Some(l) => 5 * (l as i64),
            None => 0,
        };
        self.player.max_hp as i64 + raise <= 0x7fff_ffff && self.player.gems <= 0xffff_ffff_ffff_ffff - gems && self.stats.gems_earned <= 0xffff_ffff_ffff_ffff
            - gems && self.stage_number < 0xffff_ffff && amount <= 0x7fff_ffff && -0x8000_0000 <= raised
            && raised <= 0x7fff_ffff
    }

    /// The enemy's turn comes to its blow; `c` is the fight, held apart
    /// from the state for the moment.
    fn enemy_strikes(&mut self, c: &mut CombatState)
        requires
            combat_wf(*old(c)),
            enemy_strike_fits(*old(self), *old(c)),
            old(c).phase == (CombatPhase::EnemyTurn { ticks_remaining: 0 }),
        ensures
            combat_wf(*final(c)),
            enemy_strike_post(
                *old(self),
                *old(c),
                log_view(old(self).message_log@),
                App { combat: Some(*final(c)), ..*final(self) },
                Action::Nothing,
            ),
    {
        let ghost a = *self;
        let ghost c0 = *c;
        let idx = c.current_enemy_idx;
        let result = resolve_enemy_turn(&mut c.board, &mut self.player, &mut c.enemies[idx], &mut self.rng);
        if result.dodged {
            self.stats.record_dodge();
            self.log(String::from_str("You dodged the attack!"), LogColor::Info);
        } else {
            self.stats.record_damage_taken(result.damage_dealt);
            let n = int_to_string(result.damage_dealt as i64);
            let head = join3(c.enemies[idx].name.as_str(), " attacks for ", n.as_str());
            let line = join(head.as_str(), " damage!");
            self.log(line, LogColor::EnemyDamage);
        }
        let ghost mid = log_view(self.message_log@);
        let ghost e = c0.enemies@[idx as int];
        let ghost lines = e.abilities@.map_values(
            |ab: EnemyAbility| (e.name@ + ": "@ + ability_message(ab), LogColor::Warning),
        );
        let mut k: usize = 0;
        proof {
            assert(mid + lines.subrange(0, 0) =~= mid);
            assert(crate::combat::messages(result.abilities_used@).len() == e.abilities@.len());
        }
        let ghost s_mid = *self;
        let ghost c_mid = *c;
        while k < result.abilities_used.len()
            invariant
                k <= result.abilities_used@.len(),
                result.abilities_used@.len() == e.abilities@.len(),
                crate::combat::messages(result.abilities_used@) == e.abilities@.map_values(
                    |a: EnemyAbility| ability_message(a),
                ),
                lines == e.abilities@.map_values(
                    |ab: EnemyAbility| (e.name@ + ": "@ + ability_message(ab), LogColor::Warning),
                ),
                *c == c_mid,
                c.enemies@[idx as int].name == e.name,
                idx < c.enemies@.len(),
                log_view(self.message_log@) == mid + lines.subrange(0, k as int),
                *self == (App { message_log: self.message_log, ..s_mid }),
            decreases result.abilities_used@.len() - k,
        {
            let ghost before = log_view(self.message_log@);
            let line = join3(c.enemies[idx].name.as_str(), ": ", result.abilities_used[k].as_str());
            proof {
                assert(crate::combat::messages(result.abilities_used@)[k as int] == result.abilities_used@[k as int]@);
            }
            self.log(line, LogColor::Warning);
            proof {
                assert(lines.subrange(0, k + 1) =~= lines.subrange(0, k as int).push(lines[k as int]));
                assert(log_view(self.message_log@) =~= mid + lines.subrange(0, k + 1));
            }
            k = k + 1;
        }
        proof {
            assert(lines.subrange(0, k as int) =~= lines);
        }
        c.phase = CombatPhase::EnemyHitAnim {
            damage: result.damage_dealt,
            dodged: result.dodged,
            ticks_remaining: 6,
        };
    }

    /// The stage is won: pays out its gems, hands back the run to save and
    /// opens the map; the fight is already out of the state.
    fn claim_victory(&mut self, gems: u64) -> (act: Action)
        requires
            old(self).wf(),
            old(self).combat is None,
            victory_fits(*old(self), gems),
        ensures
            final(self).wf(),
            victory_post(*old(self), gems, log_view(old(self).message_log@), *final(self), act),
    {
        self.player.gems = self.player.gems + gems;
        match crate::combat::first_book_level(&self.player.books, BookKind::Health) {
            Some(l) => {
                let raised: i64 = self.player.max_hp as i64 + 5 * (l as i64);
                self.player.max_hp = raised as i32;
            },
            None => {},
        }
        self.stats.gems_earned = self.stats.gems_earned + gems;
        let s = uint_to_string(self.stage_number as u64);
        let g = uint_to_string(gems);
        let head = join3("Stage ", s.as_str(), " complete! Earned ");
        let line = join3(head.as_str(), g.as_str(), " gems!");
        self.log(line, LogColor::Info);
        let act = Action::Save {
            player: self.player.snapshot(),
            stage_number: self.stage_number + 1,
            stats: self.stats.snapshot(),
        };
        self.enter_map();
        act
    }

    /// One tick of the clock.
    pub fn handle_tick(&mut self) -> (act: Action)
        requires
            old(self).wf(),
        ensures
            final(self).wf(),
            tick_post(*old(self), *final(self), act),
    {
        if self.tick_would_overflow() {
            return Action::OutOfRange;
        }
        self.check_pending_definitions();
        if self.screen != Screen::Combat {
            return Action::Nothing;
        }
        let c = match self.combat.take() {
            Some(c) => c,
            None => {
                return Action::Nothing;
            },
        };
        self.tick_fight(c)
    }

    /// The fight's part of a tick; `c` is the fight, taken out of the state.
    #[verifier::spinoff_prover]
    fn tick_fight(&mut self, c: CombatState) -> (act: Action)
        requires
            old(self).wf(),
            old(self).combat is None,
            old(self).screen == Screen::Combat,
            combat_wf(c),
            !tick_out_of_range(App { combat: Some(c), ..*old(self) }),
        ensures
            final(self).wf(),
            tick_phase_post(App { combat: Some(c), ..*old(self) }, log_view(old(self).message_log@), *final(self), act),
    {
        let mut c = c;
        let ghost c0 = c;
        let mut phase = CombatPhase::PlayerInput;
        core::mem::swap(&mut phase, &mut c.phase);
        match phase {
            CombatPhase::PlayerAttackAnim { damage, is_crit, word, ticks_remaining } => {
                c.phase = if ticks_remaining > 0 {
                    CombatPhase::PlayerAttackAnim { damage, is_crit, word, ticks_remaining: ticks_remaining - 1 }
                } else {
                    CombatPhase::EnemyTurn { ticks_remaining: 8 }
                };
                self.combat = Some(c);
                Action::Nothing
            },
            CombatPhase::EnemyTurn { ticks_remaining } => {
                if ticks_remaining > 0 {
                    c.phase = CombatPhase::EnemyTurn { ticks_remaining: ticks_remaining - 1 };
                } else {
                    c.phase = CombatPhase::EnemyTurn { ticks_remaining: 0 };
                    self.enemy_strikes(&mut c);
                }
                self.combat = Some(c);
                Action::Nothing
            },
            CombatPhase::EnemyHitAnim { damage, dodged, ticks_remaining } => {
                if ticks_remaining > 0 {
                    c.phase = CombatPhase::EnemyHitAnim { damage, dodged, ticks_remaining: ticks_remaining - 1 };
                    self.combat = Some(c);
                } else if !self.player.is_alive() {
                    c.phase = CombatPhase::Defeat;
                    self.combat = Some(c);
                    self.log(String::from_str("You have been defeated..."), LogColor::EnemyDamage);
                } else {
                    c.phase = CombatPhase::PlayerInput;
                    c.turn_count = c.turn_count + 1;
                    self.combat = Some(c);
                }
                Action::Nothing
            },
            CombatPhase::EnemyDefeated { ticks_remaining } => {
                if ticks_remaining > 0 {
                    c.phase = CombatPhase::EnemyDefeated { ticks_remaining: ticks_remaining - 1 };
                    self.combat = Some(c);
                    Action::Nothing
                } else {
                    let was_boss = c.enemies[c.current_enemy_idx].is_boss;
                    if c.has_next_enemy() {
                        self.stats.record_enemy_defeated(was_boss);
                        c.phase = CombatPhase::Walking { ticks_remaining: 20 };
                        self.combat = Some(c);
                        self.log(String::from_str("Moving to next encounter..."), LogColor::Info);
                        Action::Nothing
                    } else {
                        c.phase = CombatPhase::EnemyDefeated { ticks_remaining: 0 };
                        self.combat = Some(c);
                        Action::StageReward { was_boss }
                    }
                }
            },
            CombatPhase::Walking { ticks_remaining } => {
                if ticks_remaining > 0 {
                    c.phase = CombatPhase::Walking { ticks_remaining: ticks_remaining - 1 };
                    self.combat = Some(c);
                } else {
                    c.advance_enemy();
                    let line = join3("A new foe appears: ", c.enemies[c.current_enemy_idx].name.as_str(), "!");
                    c.phase = CombatPhase::PlayerInput;
                    self.combat = Some(c);
                    self.log(line, LogColor::Warning);
                }
                Action::Nothing
            },
            CombatPhase::StageVictory { gems_earned, ticks_remaining } => {
                if ticks_remaining > 0 {
                    c.phase = CombatPhase::StageVictory { gems_earned, ticks_remaining: ticks_remaining - 1 };
                    self.combat = Some(c);
                    Action::Nothing
                } else {
                    self.claim_victory(gems_earned)
                }
            },
            CombatPhase::Defeat => {
                c.phase = CombatPhase::Defeat;
                self.combat = Some(c);
                self.screen = Screen::GameOver;
                Action::DeleteSave
            },
            CombatPhase::PlayerInput => {
                self.combat = Some(c);
                Action::Nothing
            },
        }
    }
}

/// The stage's reward arrives: the last enemy's fall is recorded and the
/// victory begins with these gems. Anywhere else nothing happens.
pub open spec fn stage_reward_post(a: App, gems: u64, b: App, act: Action) -> bool {
    match a.combat {
        Some(c) => if c.phase == (CombatPhase::EnemyDefeated { ticks_remaining: 0 }) && c.current_enemy_idx + 1
            >= c.enemies@.len() {
            let e = c.enemies@[c.current_enemy_idx as int];
            if a.stats.enemies_defeated == u32::MAX || (e.is_boss && a.stats.bosses_defeated == u32::MAX) {
                act is OutOfRange && b == a
            } else {
                &&& act is Nothing
                &&& b == (App {
                    stats: RunStats {
                        enemies_defeated: (a.stats.enemies_defeated + 1) as u32,
                        bosses_defeated: (a.stats.bosses_defeated + if e.is_boss {
                            1int
                        } else {
                            0int
                        }) as u32,
                        ..a.stats
                    },
                    combat: Some(
                        CombatState {
                            phase: CombatPhase::StageVictory { gems_earned: gems, ticks_remaining: 20 },
                            ..c
                        },
                    ),
                    ..a
                })
            }
        } else {
            idle_post(a, b, act)
        },
        None => idle_post(a, b, act),
    }
}

/// Continuing a saved run: a run read back is resumed at its stage with a
/// generator seeded from the save and a log saying so; when there is none,
/// or it could not be read, a new run begins.
pub open spec fn continue_post(a: App, outcome: LoadOutcome, b: App, act: Action) -> bool {
    match outcome {
        LoadOutcome::Loaded { player, stage_number, rng_seed, stats } => if stage_number == 0 || !stage_fits(
            stage_number as int,
        ) {
            act is OutOfRange && b == a
        } else {
            &&& act is Nothing
            &&& combat_started(stage_number as int, seq![("Game loaded!"@, LogColor::Info)], b)
            &&& b == (App {
                player,
                stage_number,
                stats,
                message_log: b.message_log,
                combat: b.combat,
                biome: b.biome,
                screen: b.screen,
                rng: b.rng,
                ..a
            })
        },
        _ => new_game_post(a, b, act),
    }
}

/// A key press: control-c quits anywhere; `?` or F1 shows or hides the
/// help in a fight or the shop; tab shows or hides the statistics in a
/// fight; any other key first closes an open overlay; otherwise the key
/// goes to the screen on show.
pub open spec fn key_post(a: App, b: App, key: KeyPress, act: Action) -> bool {
    if key.code == KeyCode::Char('c') && key.ctrl {
        quit_post(a, b, act)
    } else if (key.code == KeyCode::Char('?') || key.code == KeyCode::F(1)) && (a.screen == Screen::Combat
        || a.screen == Screen::Shop) {
        act is Nothing && b == (App { show_help: !a.show_help, ..a })
    } else if key.code == KeyCode::Tab && a.screen == Screen::Combat {
        act is Nothing && b == (App { show_stats: !a.show_stats, ..a })
    } else if a.show_help || a.show_stats {
        act is Nothing && b == (App { show_help: false, show_stats: false, ..a })
    } else {
        match a.screen {
            Screen::Title => title_key_post(a, b, key, act),
            Screen::Combat => combat_key_post(a, b, key, act),
            Screen::StageMap => map_key_post(a, b, key, act),
            Screen::Shop => shop_key_post(a, b, key, act),
            Screen::Inventory => inventory_key_post(a, b, key, act),
            Screen::GameOver => game_over_key_post(a, b, key, act),
        }
    }
}

/// What an event does: keys and ticks as above; mouse activity and resizes
/// change nothing.
pub open spec fn update_post(a: App, b: App, event: Event, act: Action) -> bool {
    match event {
        Event::Key(key) => key_post(a, b, key, act),
        Event::Tick => tick_post(a, b, act),
        _ => idle_post(a, b, act),
    }
}

impl App {
    /// Hands the stage's gem reward, as the caller worked it out, to the
    /// fight.
    pub fn begin_stage_victory(&mut self, gems: u64) -> (act: Action)
        requires
            old(self).wf(),
        ensures
            final(self).wf(),
            stage_reward_post(*old(self), gems, *final(self), act),
    {
        let mut c = match self.combat.take() {
            Some(c) => c,
            None => {
                return Action::Nothing;
            },
        };
        let ready = match c.phase {
            CombatPhase::EnemyDefeated { ticks_remaining } => ticks_remaining == 0,
            _ => false,
        };
        if !ready || c.has_next_enemy() {
            self.combat = Some(c);
            return Action::Nothing;
        }
        let was_boss = c.enemies[c.current_enemy_idx].is_boss;
        if self.stats.enemies_defeated == 0xffff_ffff || (was_boss && self.stats.bosses_defeated == 0xffff_ffff) {
            self.combat = Some(c);
            return Action::OutOfRange;
        }
        self.stats.record_enemy_defeated(was_boss);
        c.phase = CombatPhase::StageVictory { gems_earned: gems, ticks_remaining: 20 };
        self.combat = Some(c);
        Action::Nothing
    }

    /// Continues from what the caller read back of the saved run.
    pub fn continue_game(&mut self, outcome: LoadOutcome) -> (act: Action)
        requires
            old(self).wf(),
        ensures
            final(self).wf(),
            continue_post(*old(self), outcome, *final(self), act),
    {
        match outcome {
            LoadOutcome::Loaded { player, stage_number, rng_seed, stats } => {
                if stage_number == 0 || !stage_can_generate(stage_number) {
                    return Action::OutOfRange;
                }
                self.player = player;
                self.stage_number = stage_number;
                self.rng = rng_from_seed(rng_seed);
                self.stats = stats;
                self.message_log = Vec::new();
                self.log(String::from_str("Game loaded!"), LogColor::Info);
                proof {
                    assert(log_view(self.message_log@) =~= seq![("Game loaded!"@, LogColor::Info)]);
                }
                self.start_combat();
                Action::Nothing
            },
            LoadOutcome::Missing => self.new_game(),
            LoadOutcome::Failed(e) => {
                let line = join("Load failed: ", e.as_str());
                self.log(line, LogColor::Warning);
                self.new_game()
            },
        }
    }

    pub fn handle_key(&mut self, key: KeyPress) -> (act: Action)
        requires
            old(self).wf(),
        ensures
            final(self).wf(),
            key_post(*old(self), *final(self), key, act),
    {
        if key.code == KeyCode::Char('c') && key.ctrl {
            return self.quit();
        }
        if key.code == KeyCode::Char('?') || key.code == KeyCode::F(1) {
            if self.screen == Screen::Combat || self.screen == Screen::Shop {
                self.show_help = !self.show_help;
                return Action::Nothing;
            }
        }
        if key.code == KeyCode::Tab && self.screen == Screen::Combat {
            self.show_stats = !self.show_stats;
            return Action::Nothing;
        }
        if self.show_help || self.show_stats {
            self.show_help = false;
            self.show_stats = false;
            return Action::Nothing;
        }
        match self.screen {
            Screen::Title => self.handle_title_key(key),
            Screen::Combat => self.handle_combat_key(key),
            Screen::StageMap => self.handle_map_key(key),
            Screen::Shop => self.handle_shop_key(key),
            Screen::Inventory => self.handle_inventory_key(key),
            Screen::GameOver => self.handle_game_over_key(key),
        }
    }

    /// Takes one event; what is left for the caller to do comes back.
    pub fn update(&mut self, event: Event) -> (act: Action)
        requires
            old(self).wf(),
        ensures
            final(self).wf(),
            update_post(*old(self), *final(self), event, act),
    {
        match event {
            Event::Key(key) => self.handle_key(key),
            Event::Tick => self.handle_tick(),
            _ => Action::Nothing,
        }
    }
}

/// Every tenth stage is a single boss; the other stages hold no boss.
pub proof fn law_every_tenth_stage_is_a_boss(stage: int, enemies: Seq<Enemy>)
    requires
        stage_enemies(stage, enemies),
    ensures
        stage % 10 == 0 ==> enemies.len() == 1 && enemies[0].is_boss,
        stage % 10 != 0 ==> forall|i: int| 0 <= i < enemies.len() ==> !(#[trigger] enemies[i]).is_boss,
{
}

/// Control-c quits from every screen, whatever else is going on.
pub proof fn law_control_c_quits(a: App, b: App, key: KeyPress, act: Action)
    requires
        key.code == KeyCode::Char('c'),
        key.ctrl,
        key_post(a, b, key, act),
    ensures
        b.should_quit,
        act is Nothing,
{
}

/// A step refused for leaving the integer types changes nothing.
pub proof fn law_refused_step_changes_nothing(a: App, b: App, event: Event, act: Action)
    requires
        update_post(a, b, event, act),
        act is OutOfRange,
    ensures
        b == a,
{
}

/// After a word lands, no tile is left selected.
pub proof fn law_nothing_selected_after_word(s: Board, t: Board, cleansed_tile: bool)
    requires
        board_after_word(s, t, cleansed_tile),
    ensures
        forall|k: int| 0 <= k < 15 ==> !(#[trigger] t.cells()[k]).selected,
{
    assert forall|k: int| 0 <= k < 15 implies !(#[trigger] t.cells()[k]).selected by {
        if t.cells()[k].selected {
            assert(t.cells()[k].select_order is Some);
        }
    }
}

/// No step takes the player's health above its maximum (when the maximum
/// is not negative).
pub proof fn law_health_stays_within_maximum(a: App, b: App, event: Event, act: Action)
    requires
        update_post(a, b, event, act),
        0 <= a.player.max_hp,
        a.player.hp <= a.player.max_hp,
    ensures
        0 <= b.player.max_hp,
        b.player.hp <= b.player.max_hp,
{
    match event {
        Event::Key(key) => {
            if !(key.code == KeyCode::Char('c') && key.ctrl) && !((key.code == KeyCode::Char('?') || key.code
                == KeyCode::F(1)) && (a.screen == Screen::Combat || a.screen == Screen::Shop)) && !(key.code
                == KeyCode::Tab && a.screen == Screen::Combat) && !(a.show_help || a.show_stats) {
                match a.screen {
                    Screen::Shop => {
                        match a.shop_state {
                            Some(s) => {
                                if key.code == KeyCode::Enter {
                                    let item = s.items@[s.selected_index as int];
                                    if crate::shop::price_fits(item, a.player) && affordable(item, a.player)
                                        && purchase_fits(item, a.player) && a.stats.gems_spent + item_price(
                                        item,
                                        a.player,
                                    ) <= u64::MAX && a.stage_number + 30 <= i32::MAX {
                                        assert(bought(item, a.player, b.player));
                                    }
                                }
                            },
                            None => {},
                        }
                    },
                    _ => {},
                }
            }
        },
        Event::Tick => {},
        _ => {},
    }
}

/// Landing a word never takes the player's health above its maximum (when
/// the maximum is not negative).
pub proof fn law_word_keeps_health_within_maximum(a: App, b: App, damage: DamageResult, act: Action)
    requires
        finish_post(a, b, damage, act),
        0 <= a.player.max_hp,
        a.player.hp <= a.player.max_hp,
    ensures
        b.player.hp <= b.player.max_hp,
{
}

/// No step overfills the potion bag or holds more than three books.
pub proof fn law_bag_stays_within_capacity(a: App, b: App, event: Event, act: Action)
    requires
        update_post(a, b, event, act),
        a.player.potions@.len() <= a.player.max_potions,
        a.player.books@.len() <= 3,
    ensures
        b.player.potions@.len() <= b.player.max_potions,
        b.player.books@.len() <= 3,
{
    match event {
        Event::Key(key) => {
            if !(key.code == KeyCode::Char('c') && key.ctrl) && !((key.code == KeyCode::Char('?') || key.code
                == KeyCode::F(1)) && (a.screen == Screen::Combat || a.screen == Screen::Shop)) && !(key.code
                == KeyCode::Tab && a.screen == Screen::Combat) && !(a.show_help || a.show_stats) {
                match a.screen {
                    Screen::Shop => {
                        match a.shop_state {
                            Some(s) => {
                                if key.code == KeyCode::Enter {
                                    let item = s.items@[s.selected_index as int];
                                    if crate::shop::price_fits(item, a.player) && affordable(item, a.player)
                                        && purchase_fits(item, a.player) && a.stats.gems_spent + item_price(
                                        item,
                                        a.player,
                                    ) <= u64::MAX && a.stage_number + 30 <= i32::MAX {
                                        assert(bought(item, a.player, b.player));
                                        crate::shop::law_purchase_respects_capacity(item, a.player);
                                    }
                                }
                            },
                            None => {},
                        }
                    },
                    _ => {},
                }
            }
        },
        _ => {},
    }
}

} // verus!
