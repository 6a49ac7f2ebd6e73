//! The letter board: three rows of five tiles, the player's selection of
//! tiles in the order they were picked, and the effects that play on it.

use crate::rng::{choose_one, gen_ratio, shuffle};
use crate::text::push_char;
use crate::tile::{is_fresh, is_upper_letter, random_letter, random_tile, spec_is_negative, Tile, TileEffect};
use rand_chacha::ChaCha8Rng;
use vstd::prelude::*;

verus! {

pub const BOARD_ROWS: usize = 3;

pub const BOARD_COLS: usize = 5;

/// Number of tiles on the board.
pub const BOARD_TILES: usize = 15;

/// Index of the tile at `(row, col)` in row-major order.
pub open spec fn pos(row: int, col: int) -> int {
    row * 5 + col
}

/// How many items of `s` satisfy `p`.
pub open spec fn count_where(s: Seq<Tile>, p: spec_fn(Tile) -> bool) -> nat
    decreases s.len(),
{
    if s.len() == 0 {
        0
    } else {
        count_where(s.drop_last(), p) + if p(s.last()) {
            1nat
        } else {
            0nat
        }
    }
}

/// The tile with its selection removed.
pub open spec fn cleared(t: Tile) -> Tile {
    Tile { selected: false, select_order: None, ..t }
}

/// The tile picked as number `order`.
pub open spec fn picked(t: Tile, order: u8) -> Tile {
    Tile { selected: true, select_order: Some(order), ..t }
}

/// The tile after the pick numbered `removed` was taken back: later picks
/// move one place forward.
pub open spec fn shifted(t: Tile, removed: u8) -> Tile {
    if t.select_order is Some && t.select_order->0 > removed {
        Tile { select_order: Some((t.select_order->0 - 1) as u8), ..t }
    } else {
        t
    }
}

/// Whether some tile carries pick number `o`.
pub open spec fn has_order(s: Seq<Tile>, o: u8) -> bool {
    exists|k: int| 0 <= k < s.len() && s[k].select_order == Some(o)
}

/// The index of the tile that carries pick number `o`.
pub open spec fn pos_of_order(s: Seq<Tile>, o: u8) -> int {
    choose|k: int| 0 <= k < s.len() && s[k].select_order == Some(o)
}

/// The selection is consistent: exactly the selected tiles carry a pick
/// number, the numbers `1 .. next` are each used exactly once, and `next - 1`
/// tiles are selected.
pub open spec fn selection_wf(s: Seq<Tile>, next: int) -> bool {
    &&& s.len() == 15
    &&& 1 <= next <= 16
    &&& forall|k: int| 0 <= k < 15 ==> (#[trigger] s[k]).selected == (s[k].select_order is Some)
    &&& forall|k: int|
        0 <= k < 15 && (#[trigger] s[k]).select_order is Some ==> 1 <= s[k].select_order->0 < next
    &&& forall|j: int, k: int|
        0 <= j < 15 && 0 <= k < 15 && j != k && (#[trigger] s[j]).select_order is Some
            ==> s[j].select_order != (#[trigger] s[k]).select_order
    &&& forall|o: u8| 1 <= o < next ==> #[trigger] has_order(s, o)
    &&& count_where(s, |t: Tile| t.selected) == next - 1
}

/// The board after the tile at `k` was taken out of the selection.
pub open spec fn deselect(s: Seq<Tile>, k: int) -> Seq<Tile> {
    Seq::new(
        s.len(),
        |i: int|
            if i == k {
                cleared(s[i])
            } else {
                shifted(s[i], s[k].select_order->0)
            },
    )
}

/// The letters of the selected tiles in the order they were picked.
pub open spec fn word_of(s: Seq<Tile>, next: int) -> Seq<char> {
    Seq::new((next - 1) as nat, |i: int| s[pos_of_order(s, (i + 1) as u8)].letter)
}

/// The `(row, col)` of the selected tiles in the order they were picked.
pub open spec fn positions_of(s: Seq<Tile>, next: int) -> Seq<(usize, usize)> {
    Seq::new(
        (next - 1) as nat,
        |i: int|
            {
                let p = pos_of_order(s, (i + 1) as u8);
                ((p / 5) as usize, (p % 5) as usize)
            },
    )
}

/// The tile with a negative effect washed off.
pub open spec fn cleansed(t: Tile) -> Tile {
    if spec_is_negative(t.effect) {
        Tile { effect: TileEffect::Normal, timer: None, ..t }
    } else {
        t
    }
}

/// The tile carrying `effect` for `timer` turns.
pub open spec fn afflicted(t: Tile, effect: TileEffect, timer: u8) -> Tile {
    Tile { effect, timer: Some(timer), ..t }
}

/// A tile that replaces a used one: fresh, or a fresh tile that came up as
/// a crystal lasting three turns.
pub open spec fn is_dealt(t: Tile) -> bool {
    ||| is_fresh(t)
    ||| is_fresh(Tile { effect: TileEffect::Normal, timer: None, ..t }) && t.effect
        == TileEffect::Crystal && t.timer == Some(3u8)
}

/// The timer after one turn: a running timer counts down to zero.
pub open spec fn ticked_timer(t: Option<u8>) -> Option<u8> {
    match t {
        Some(x) => if x > 0 {
            Some((x - 1) as u8)
        } else {
            Some(0u8)
        },
        None => None,
    }
}

/// Whether the tile's effect runs out this turn.
pub open spec fn expires(t: Tile) -> bool {
    ticked_timer(t.timer) == Some(0u8)
}

/// The tile after its own part of a turn: an expiring effect falls off, a
/// running timer counts down, and a whirlwind tile takes the letter `l`.
pub open spec fn after_tick(t: Tile, l: char) -> Tile {
    if expires(t) {
        Tile { effect: TileEffect::Normal, timer: None, ..t }
    } else if t.effect == TileEffect::Whirlwind {
        Tile { timer: ticked_timer(t.timer), letter: l, ..t }
    } else {
        Tile { timer: ticked_timer(t.timer), ..t }
    }
}

/// The neighbour of tile `k` in direction `d` (right, left, down, up), or
/// -1 off the board.
pub open spec fn neighbor(k: int, d: int) -> int {
    if d == 0 {
        if k % 5 < 4 {
            k + 1
        } else {
            -1
        }
    } else if d == 1 {
        if k % 5 > 0 {
            k - 1
        } else {
            -1
        }
    } else if d == 2 {
        if k / 5 < 2 {
            k + 5
        } else {
            -1
        }
    } else {
        if k / 5 > 0 {
            k - 5
        } else {
            -1
        }
    }
}

/// Whether tile `j` shows no effect at the moment tile `k` takes its turn:
/// tiles before `k` have already had their turn.
pub open spec fn normal_when(s: Seq<Tile>, j: int, k: int) -> bool {
    s[j].effect == TileEffect::Normal || (j < k && expires(s[j]))
}

pub open spec fn plague_active(t: Tile) -> bool {
    t.effect == TileEffect::Plague && !expires(t)
}

pub open spec fn duplicator_active(t: Tile) -> bool {
    t.effect == TileEffect::Duplicator && !expires(t)
}

/// Whether an active plague tile among the first `n` reaches tile `j`.
pub open spec fn plague_reaches(s: Seq<Tile>, j: int, n: int) -> bool {
    exists|k: int, d: int|
        0 <= k < n && 0 <= d < 4 && plague_active(s[k]) && #[trigger] neighbor(k, d) == j
            && normal_when(s, j, k)
}

/// Whether direction `d` from `k` leads to a tile without effect.
pub open spec fn open_side(s: Seq<Tile>, k: int, d: int) -> bool {
    neighbor(k, d) >= 0 && normal_when(s, neighbor(k, d), k)
}

/// The tile a duplicator at `k` copies onto: its first neighbour (right,
/// left, down, up) without effect, or -1.
pub open spec fn duplicator_target(s: Seq<Tile>, k: int) -> int {
    if open_side(s, k, 0) {
        neighbor(k, 0)
    } else if open_side(s, k, 1) {
        neighbor(k, 1)
    } else if open_side(s, k, 2) {
        neighbor(k, 2)
    } else if open_side(s, k, 3) {
        neighbor(k, 3)
    } else {
        -1
    }
}

/// The letter that the last active duplicator among the first `n` copies
/// onto tile `j`, if any does.
pub open spec fn copied_letter(s: Seq<Tile>, j: int, n: int) -> Option<char>
    decreases n,
{
    if n <= 0 {
        None
    } else if duplicator_active(s[n - 1]) && duplicator_target(s, n - 1) == j {
        Some(s[n - 1].letter)
    } else {
        copied_letter(s, j, n - 1)
    }
}

/// The board after a turn's effects, where `letters[j]` is the letter a
/// whirlwind tile at `j` spins to: each tile takes its own turn, then free
/// tiles next to an active plague catch it for three turns, and free tiles
/// that an active duplicator aims at take its letter.
pub open spec fn ticked(s: Seq<Tile>, letters: Seq<char>) -> Seq<Tile> {
    Seq::new(s.len(), |j: int| ticked_tile(s, letters, j))
}

/// Tile `j` after a turn's effects (see `ticked`).
pub open spec fn ticked_tile(s: Seq<Tile>, letters: Seq<char>, j: int) -> Tile {
    let q = after_tick(s[j], letters[j]);
    if q.effect == TileEffect::Normal && plague_reaches(s, j, 15) {
        Tile { effect: TileEffect::Plague, timer: Some(3u8), ..q }
    } else if q.effect == TileEffect::Normal && copied_letter(s, j, 15) is Some {
        Tile { letter: copied_letter(s, j, 15)->0, ..q }
    } else {
        q
    }
}

pub proof fn lemma_count_update(s: Seq<Tile>, p: spec_fn(Tile) -> bool, i: int, t: Tile)
    requires
        0 <= i < s.len(),
    ensures
        count_where(s.update(i, t), p) + (if p(s[i]) {
            1int
        } else {
            0int
        }) == count_where(s, p) + (if p(t) {
            1int
        } else {
            0int
        }),
    decreases s.len(),
{
    if i == s.len() - 1 {
        assert(s.update(i, t).drop_last() =~= s.drop_last());
    } else {
        lemma_count_update(s.drop_last(), p, i, t);
        assert(s.update(i, t).drop_last() =~= s.drop_last().update(i, t));
    }
}

pub proof fn lemma_count_bound(s: Seq<Tile>, p: spec_fn(Tile) -> bool)
    ensures
        count_where(s, p) <= s.len(),
    decreases s.len(),
{
    if s.len() > 0 {
        lemma_count_bound(s.drop_last(), p);
    }
}

/// Two sequences on which `p` and `q` agree item by item have equal counts.
pub proof fn lemma_count_same(s: Seq<Tile>, p: spec_fn(Tile) -> bool, t: Seq<Tile>, q: spec_fn(Tile) -> bool)
    requires
        s.len() == t.len(),
        forall|i: int| 0 <= i < s.len() ==> p(#[trigger] s[i]) == q(t[i]),
    ensures
        count_where(s, p) == count_where(t, q),
    decreases s.len(),
{
    if s.len() > 0 {
        lemma_count_same(s.drop_last(), p, t.drop_last(), q);
        assert(p(s[s.len() - 1]) == q(t[t.len() - 1]));
    }
}

/// The count over a prefix one item longer.
pub proof fn lemma_count_prefix(s: Seq<Tile>, p: spec_fn(Tile) -> bool, i: int)
    requires
        0 <= i < s.len(),
    ensures
        count_where(s.subrange(0, i + 1), p) == count_where(s.subrange(0, i), p) + if p(s[i]) {
            1nat
        } else {
            0nat
        },
{
    assert(s.subrange(0, i + 1).drop_last() =~= s.subrange(0, i));
}

/// Selecting an unselected tile keeps the selection consistent.
proof fn lemma_select_wf(s: Seq<Tile>, next: int, k: int)
    requires
        selection_wf(s, next),
        0 <= k < 15,
        !s[k].selected,
    ensures
        next < 16,
        selection_wf(s.update(k, picked(s[k], next as u8)), next + 1),
{
    let t = s.update(k, picked(s[k], next as u8));
    let sel = |x: Tile| x.selected;
    lemma_count_update(s, sel, k, picked(s[k], next as u8));
    lemma_count_bound(t, sel);
    assert forall|o: u8| 1 <= o < next + 1 implies #[trigger] has_order(t, o) by {
        if o < next {
            assert(has_order(s, o));
            let j = choose|j: int| 0 <= j < s.len() && s[j].select_order == Some(o);
            assert(j != k);
            assert(t[j].select_order == Some(o));
        } else {
            assert(t[k].select_order == Some(o));
        }
    }
}

/// Taking a selected tile out of the selection keeps it consistent.
proof fn lemma_deselect_wf(s: Seq<Tile>, next: int, k: int)
    requires
        selection_wf(s, next),
        0 <= k < 15,
        s[k].selected,
    ensures
        next > 1,
        selection_wf(deselect(s, k), next - 1),
{
    let t = deselect(s, k);
    let r = s[k].select_order->0;
    let sel = |x: Tile| x.selected;
    assert(s[k].select_order is Some);
    let u = s.update(k, cleared(s[k]));
    lemma_count_update(s, sel, k, cleared(s[k]));
    assert forall|i: int| 0 <= i < u.len() implies sel(#[trigger] u[i]) == sel(t[i]) by {}
    lemma_count_same(u, sel, t, sel);
    assert forall|j: int, i: int|
        0 <= j < 15 && 0 <= i < 15 && j != i && (#[trigger] t[j]).select_order is Some
            implies t[j].select_order != (#[trigger] t[i]).select_order by {
        assert(s[j].select_order != s[i].select_order);
        if j != k && i != k {
            assert(s[j].select_order != s[k].select_order);
            if s[i].select_order is Some {
                assert(s[i].select_order != s[k].select_order);
            }
        }
    }
    assert forall|o: u8| 1 <= o < next - 1 implies #[trigger] has_order(t, o) by {
        if o < r {
            assert(has_order(s, o));
            let j = choose|j: int| 0 <= j < s.len() && s[j].select_order == Some(o);
            assert(j != k);
            assert(t[j].select_order == Some(o));
        } else {
            let o1 = (o + 1) as u8;
            assert(has_order(s, o1));
            let j = choose|j: int| 0 <= j < s.len() && s[j].select_order == Some(o1);
            assert(j != k);
            assert(t[j].select_order == Some(o));
        }
    }
}

/// The tile found with pick number `o` is the one the spec names.
proof fn lemma_pos_of_order(s: Seq<Tile>, next: int, o: u8, k: int)
    requires
        selection_wf(s, next),
        0 <= k < 15,
        s[k].select_order == Some(o),
    ensures
        pos_of_order(s, o) == k,
{
    assert(has_order(s, o));
    let j = pos_of_order(s, o);
    assert(s[j].select_order == Some(o));
    if j != k {
        assert(s[j].select_order != s[k].select_order);
    }
}

/// The board of tiles and the number the next pick will carry.
#[derive(Debug, Clone)]
pub struct Board {
    tiles: Vec<Tile>,
    next_select_order: u8,
}

/// What picking or unpicking the tile at `(row, col)` makes of board `s`:
/// a tile that cannot be selected leaves it as it is; a selected tile is
/// unpicked, with the picks after it moving down; another tile is picked
/// as the next letter.
pub open spec fn toggle_result(s: Board, t: Board, row: int, col: int) -> bool {
    let k = pos(row, col);
    let c = s.cells();
    &&& t.wf()
    &&& !c[k].spec_is_selectable() ==> t == s
    &&& c[k].spec_is_selectable() && c[k].selected ==> t.cells() == deselect(c, k) && t.next_order()
        == s.next_order() - 1
    &&& c[k].spec_is_selectable() && !c[k].selected ==> t.cells() == c.update(
        k,
        picked(c[k], s.next_order() as u8),
    ) && t.next_order() == s.next_order() + 1
}

/// What unpicking the last picked tile makes of board `s`.
pub open spec fn undo_result(s: Board, t: Board) -> bool {
    let c = s.cells();
    let k = pos_of_order(c, (s.next_order() - 1) as u8);
    &&& t.wf()
    &&& s.next_order() <= 1 ==> t == s
    &&& s.next_order() > 1 ==> t.cells() == c.update(k, cleared(c[k])) && t.next_order() == s.next_order() - 1
}

/// `t` is `s` with `effect` (running for `timer` turns) laid on as many
/// effect-free tiles as `count` asks, or all of them when there are fewer;
/// which ones is left open.
pub open spec fn afflicted_board(s: Seq<Tile>, t: Seq<Tile>, effect: TileEffect, count: usize, timer: u8) -> bool {
    let n = count_where(s, |t: Tile| t.effect == TileEffect::Normal);
    exists|chosen: Set<usize>|
        {
            &&& chosen.finite()
            &&& chosen.len() == if count < n {
                count as nat
            } else {
                n
            }
            &&& forall|k: usize| #[trigger]
                chosen.contains(k) ==> k < s.len() && s[k as int].effect == TileEffect::Normal
            &&& t == Seq::new(
                s.len(),
                |k: int|
                    if chosen.contains(k as usize) {
                        afflicted(s[k], effect, timer)
                    } else {
                        s[k]
                    },
            )
        }
}

/// `t` is `s` after a turn's effects, for some choice of the letters that
/// whirlwind tiles spin to.
pub open spec fn ticked_board(s: Seq<Tile>, t: Seq<Tile>) -> bool {
    exists|letters: Seq<char>|
        {
            &&& letters.len() == 15
            &&& forall|j: int|
                0 <= j < 15 ==> #[trigger] is_upper_letter(letters[j]) || !(s[j].effect == TileEffect::Whirlwind
                    && !expires(s[j]))
            &&& t == ticked(s, letters)
        }
}

impl Board {
    /// The tiles in row-major order.
    pub closed spec fn cells(&self) -> Seq<Tile> {
        self.tiles@
    }

    /// The number the next pick will carry; one more than the picks made.
    pub closed spec fn next_order(&self) -> int {
        self.next_select_order as int
    }

    pub open spec fn wf(&self) -> bool {
        selection_wf(self.cells(), self.next_order())
    }

    /// The selected word, letter by letter.
    pub open spec fn word(&self) -> Seq<char> {
        word_of(self.cells(), self.next_order())
    }

    /// A board dealt with fresh random tiles and nothing selected.
    pub fn new(rng: &mut ChaCha8Rng) -> (b: Board)
        ensures
            b.wf(),
            b.next_order() == 1,
            forall|k: int| 0 <= k < 15 ==> is_fresh(#[trigger] b.cells()[k]),
    {
        let mut tiles: Vec<Tile> = Vec::new();
        let mut i: usize = 0;
        while i < BOARD_TILES
            invariant
                i <= 15,
                tiles@.len() == i,
                forall|k: int| 0 <= k < i ==> is_fresh(#[trigger] tiles@[k]),
            decreases 15 - i,
        {
            let t = random_tile(rng);
            tiles.push(t);
            i = i + 1;
        }
        proof {
            let sel = |x: Tile| x.selected;
            lemma_count_zero(tiles@, sel);
        }
        Board { tiles, next_select_order: 1 }
    }

    pub fn tile(&self, row: usize, col: usize) -> (t: &Tile)
        requires
            self.wf(),
            row < 3,
            col < 5,
        ensures
            *t == self.cells()[pos(row as int, col as int)],
    {
        &self.tiles[row * BOARD_COLS + col]
    }

    /// Toggle selection of a tile. Returns true if the tile was toggled.
    pub fn toggle_select(&mut self, row: usize, col: usize) -> (r: bool)
        requires
            old(self).wf(),
            row < 3,
            col < 5,
        ensures
            final(self).wf(),
            ({
                let k = pos(row as int, col as int);
                let s = old(self).cells();
                &&& r == s[k].spec_is_selectable()
                &&& !r ==> *final(self) == *old(self)
                &&& r && s[k].selected ==> final(self).cells() == deselect(s, k)
                    && final(self).next_order() == old(self).next_order() - 1
                &&& r && !s[k].selected ==> final(self).cells() == s.update(
                    k,
                    picked(s[k], old(self).next_order() as u8),
                ) && final(self).next_order() == old(self).next_order() + 1
            }),
            toggle_result(*old(self), *final(self), row as int, col as int),
    {
        let k = row * BOARD_COLS + col;
        let tile = self.tiles[k];
        if !tile.is_selectable() {
            return false;
        }
        if tile.selected {
            let ghost s = self.tiles@;
            proof {
                lemma_deselect_wf(s, self.next_select_order as int, k as int);
            }
            let removed_order = tile.select_order;
            self.tiles.set(k, Tile { selected: false, select_order: None, ..tile });
            if let Some(removed) = removed_order {
                let mut i: usize = 0;
                while i < BOARD_TILES
                    invariant
                        0 <= k < 15,
                        i <= 15,
                        s.len() == 15,
                        removed == s[k as int].select_order->0,
                        self.tiles@.len() == 15,
                        forall|j: int| 0 <= j < i ==> #[trigger] self.tiles@[j] == deselect(s, k as int)[j],
                        forall|j: int| i <= j < 15 ==> #[trigger] self.tiles@[j] == s.update(k as int, cleared(s[k as int]))[j],
                        self.next_select_order == old(self).next_select_order,
                    decreases 15 - i,
                {
                    let t = self.tiles[i];
                    if let Some(order) = t.select_order {
                        if order > removed {
                            self.tiles.set(i, Tile { select_order: Some(order - 1), ..t });
                        }
                    }
                    i = i + 1;
                }
                assert(self.tiles@ =~= deselect(s, k as int));
                self.next_select_order = self.next_select_order - 1;
            }
        } else {
            let ghost s = self.tiles@;
            proof {
                lemma_select_wf(s, self.next_select_order as int, k as int);
            }
            self.tiles.set(k, Tile { selected: true, select_order: Some(self.next_select_order), ..tile });
            self.next_select_order = self.next_select_order + 1;
        }
        true
    }

    /// A mutable handle on one tile; whatever is written through it lands
    /// on that tile and nowhere else.
    pub fn tile_mut(&mut self, row: usize, col: usize) -> (t: &mut Tile)
        requires
            old(self).wf(),
            row < 3,
            col < 5,
        ensures
            *t == old(self).cells()[pos(row as int, col as int)],
            final(self).cells() == old(self).cells().update(pos(row as int, col as int), *final(t)),
            final(self).next_order() == old(self).next_order(),
    {
        &mut self.tiles[row * BOARD_COLS + col]
    }

    /// Undo the last tile selection. Returns true if a tile was deselected.
    pub fn undo_last_select(&mut self) -> (r: bool)
        requires
            old(self).wf(),
        ensures
            final(self).wf(),
            r == (old(self).next_order() > 1),
            !r ==> *final(self) == *old(self),
            r ==> {
                let s = old(self).cells();
                let k = pos_of_order(s, (old(self).next_order() - 1) as u8);
                &&& 0 <= k < 15
                &&& s[k].select_order == Some((old(self).next_order() - 1) as u8)
                &&& final(self).cells() == s.update(k, cleared(s[k]))
                &&& final(self).next_order() == old(self).next_order() - 1
            },
            undo_result(*old(self), *final(self)),
    {
        if self.next_select_order <= 1 {
            return false;
        }
        let last_order = self.next_select_order - 1;
        let ghost s = self.tiles@;
        proof {
            assert(has_order(s, last_order));
        }
        let mut i: usize = 0;
        while i < BOARD_TILES
            invariant
                i <= 15,
                self.tiles@ == s,
                self.next_select_order == old(self).next_select_order,
                *old(self) == *self,
                old(self).wf(),
                last_order == self.next_select_order - 1,
                1 <= last_order,
                forall|j: int| 0 <= j < i ==> (#[trigger] s[j]).select_order != Some(last_order),
            decreases 15 - i,
        {
            let t = self.tiles[i];
            if t.select_order == Some(last_order) {
                proof {
                    lemma_pos_of_order(s, old(self).next_order(), last_order, i as int);
                    lemma_deselect_wf(s, old(self).next_order(), i as int);
                    assert(deselect(s, i as int) =~= s.update(i as int, cleared(s[i as int])));
                }
                self.tiles.set(i, Tile { selected: false, select_order: None, ..t });
                self.next_select_order = self.next_select_order - 1;
                return true;
            }
            i = i + 1;
        }
        proof {
            let j = choose|j: int| 0 <= j < s.len() && s[j].select_order == Some(last_order);
            assert(s[j].select_order != Some(last_order));
        }
        false
    }

    /// The index of the tile that carries pick number `o`.
    fn find_order(&self, o: u8) -> (k: usize)
        requires
            self.wf(),
            1 <= o < self.next_order(),
        ensures
            k < 15,
            self.cells()[k as int].select_order == Some(o),
    {
        proof {
            assert(has_order(self.cells(), o));
        }
        let mut i: usize = 0;
        while i < BOARD_TILES
            invariant
                self.wf(),
                i <= 15,
                1 <= o < self.next_order(),
                forall|j: int| 0 <= j < i ==> (#[trigger] self.cells()[j]).select_order != Some(o),
            decreases 15 - i,
        {
            if self.tiles[i].select_order == Some(o) {
                return i;
            }
            i = i + 1;
        }
        proof {
            let s = self.cells();
            let j = choose|j: int| 0 <= j < s.len() && s[j].select_order == Some(o);
            assert(s[j].select_order != Some(o));
        }
        0
    }

    /// Get the word formed by currently selected tiles, in selection order
    pub fn selected_word(&self) -> (w: String)
        requires
            self.wf(),
        ensures
            w@ == self.word(),
    {
        let mut w = String::new();
        let mut o: u8 = 1;
        while o < self.next_select_order
            invariant
                self.wf(),
                1 <= o <= self.next_order(),
                w@ =~= word_of(self.cells(), self.next_order()).subrange(0, o - 1),
            decreases self.next_order() - o,
        {
            let k = self.find_order(o);
            proof {
                lemma_pos_of_order(self.cells(), self.next_order(), o, k as int);
            }
            push_char(&mut w, self.tiles[k].letter);
            o = o + 1;
        }
        assert(w@ =~= self.word());
        w
    }

    /// Get selected tiles in order, returning (row, col) pairs
    pub fn selected_positions(&self) -> (v: Vec<(usize, usize)>)
        requires
            self.wf(),
        ensures
            v@ == positions_of(self.cells(), self.next_order()),
    {
        let mut v: Vec<(usize, usize)> = Vec::new();
        let mut o: u8 = 1;
        while o < self.next_select_order
            invariant
                self.wf(),
                1 <= o <= self.next_order(),
                v@ =~= positions_of(self.cells(), self.next_order()).subrange(0, o - 1),
            decreases self.next_order() - o,
        {
            let k = self.find_order(o);
            proof {
                lemma_pos_of_order(self.cells(), self.next_order(), o, k as int);
            }
            v.push((k / BOARD_COLS, k % BOARD_COLS));
            o = o + 1;
        }
        assert(v@ =~= positions_of(self.cells(), self.next_order()));
        v
    }

    /// Clear all selections
    pub fn clear_selection(&mut self)
        ensures
            final(self).cells() == old(self).cells().map_values(|t: Tile| cleared(t)),
            final(self).next_order() == 1,
            old(self).cells().len() == 15 ==> final(self).wf(),
    {
        let ghost s = self.tiles@;
        let mut i: usize = 0;
        while i < self.tiles.len()
            invariant
                i <= s.len(),
                self.tiles@.len() == s.len(),
                forall|j: int| 0 <= j < i ==> #[trigger] self.tiles@[j] == cleared(s[j]),
                forall|j: int| i <= j < s.len() ==> #[trigger] self.tiles@[j] == s[j],
            decreases s.len() - i,
        {
            let t = self.tiles[i];
            self.tiles.set(i, Tile { selected: false, select_order: None, ..t });
            i = i + 1;
        }
        self.next_select_order = 1;
        assert(self.tiles@ =~= s.map_values(|t: Tile| cleared(t)));
        proof {
            let sel = |x: Tile| x.selected;
            lemma_count_zero(self.tiles@, sel);
        }
    }

    /// Cleanse all negative tile effects (Purity potion)
    pub fn cleanse_effects(&mut self)
        ensures
            final(self).cells() == old(self).cells().map_values(|t: Tile| cleansed(t)),
            final(self).next_order() == old(self).next_order(),
            old(self).wf() ==> final(self).wf(),
    {
        let ghost s = self.tiles@;
        let mut i: usize = 0;
        while i < self.tiles.len()
            invariant
                i <= s.len(),
                self.tiles@.len() == s.len(),
                self.next_select_order == old(self).next_select_order,
                forall|j: int| 0 <= j < i ==> #[trigger] self.tiles@[j] == cleansed(s[j]),
                forall|j: int| i <= j < s.len() ==> #[trigger] self.tiles@[j] == s[j],
            decreases s.len() - i,
        {
            let t = self.tiles[i];
            if t.effect.is_negative() {
                self.tiles.set(i, Tile { effect: TileEffect::Normal, timer: None, ..t });
            }
            i = i + 1;
        }
        assert(self.tiles@ =~= s.map_values(|t: Tile| cleansed(t)));
        proof {
            let sel = |x: Tile| x.selected;
            lemma_count_same(s, sel, self.tiles@, sel);
            assert forall|o: u8| 1 <= o < self.next_order() && has_order(s, o) implies #[trigger] has_order(self.tiles@, o) by {
                let j = choose|j: int| 0 <= j < s.len() && s[j].select_order == Some(o);
                assert(self.tiles@[j].select_order == Some(o));
            }
        }
    }

    /// Count how many selected tiles have a specific effect
    pub fn count_selected_with_effect(&self, effect: TileEffect) -> (n: usize)
        ensures
            n == count_where(self.cells(), |t: Tile| t.selected && t.effect == effect),
    {
        let ghost p = |t: Tile| t.selected && t.effect == effect;
        let mut n: usize = 0;
        let mut i: usize = 0;
        while i < self.tiles.len()
            invariant
                i <= self.cells().len(),
                n == count_where(self.cells().subrange(0, i as int), p),
                n <= i,
                p == (|t: Tile| t.selected && t.effect == effect),
            decreases self.cells().len() - i,
        {
            proof {
                lemma_count_prefix(self.cells(), p, i as int);
            }
            if self.tiles[i].selected && self.tiles[i].effect == effect {
                n = n + 1;
            }
            i = i + 1;
        }
        assert(self.cells().subrange(0, i as int) =~= self.cells());
        n
    }

    pub fn selection_count(&self) -> (n: usize)
        ensures
            n == count_where(self.cells(), |t: Tile| t.selected),
    {
        let ghost p = |t: Tile| t.selected;
        let mut n: usize = 0;
        let mut i: usize = 0;
        while i < self.tiles.len()
            invariant
                i <= self.cells().len(),
                n == count_where(self.cells().subrange(0, i as int), p),
                n <= i,
                p == (|t: Tile| t.selected),
            decreases self.cells().len() - i,
        {
            proof {
                lemma_count_prefix(self.cells(), p, i as int);
            }
            if self.tiles[i].selected {
                n = n + 1;
            }
            i = i + 1;
        }
        assert(self.cells().subrange(0, i as int) =~= self.cells());
        n
    }

    /// Consume selected tiles and replace with new random ones. Each new
    /// tile comes up as a crystal with chance (80 + `crystal_bonus`) in a
    /// thousand.
    pub fn consume_selected(&mut self, rng: &mut ChaCha8Rng, crystal_bonus: u32)
        ensures
            final(self).cells().len() == old(self).cells().len(),
            final(self).next_order() == 1,
            forall|k: int|
                0 <= k < old(self).cells().len() ==> if (#[trigger] old(self).cells()[k]).selected {
                    is_dealt(final(self).cells()[k])
                } else {
                    final(self).cells()[k] == old(self).cells()[k]
                },
            80 + crystal_bonus >= 1000 ==> forall|k: int|
                0 <= k < old(self).cells().len() && (#[trigger] old(self).cells()[k]).selected
                    ==> final(self).cells()[k].effect == TileEffect::Crystal && final(self).cells()[k].timer
                    == Some(3u8),
            old(self).wf() ==> final(self).wf(),
    {
        let chance: u32 = if crystal_bonus >= 920 {
            1000
        } else {
            80 + crystal_bonus
        };
        let ghost s = self.tiles@;
        let mut i: usize = 0;
        while i < self.tiles.len()
            invariant
                i <= s.len(),
                self.tiles@.len() == s.len(),
                chance <= 1000,
                forall|j: int|
                    0 <= j < i ==> if (#[trigger] s[j]).selected {
                        is_dealt(self.tiles@[j])
                    } else {
                        self.tiles@[j] == s[j]
                    },
                forall|j: int| i <= j < s.len() ==> #[trigger] self.tiles@[j] == s[j],
                80 + crystal_bonus >= 1000 ==> chance == 1000,
                chance == 1000 ==> forall|j: int|
                    0 <= j < i && (#[trigger] s[j]).selected ==> self.tiles@[j].effect == TileEffect::Crystal
                        && self.tiles@[j].timer == Some(3u8),
            decreases s.len() - i,
        {
            if self.tiles[i].selected {
                let mut t = random_tile(rng);
                if gen_ratio(rng, chance, 1000) {
                    t = Tile { effect: TileEffect::Crystal, timer: Some(3), ..t };
                }
                self.tiles.set(i, t);
            }
            i = i + 1;
        }
        self.next_select_order = 1;
        proof {
            if selection_wf(s, old(self).next_order()) {
                let sel = |x: Tile| x.selected;
                assert forall|j: int| 0 <= j < self.tiles@.len() implies !sel(#[trigger] self.tiles@[j])
                    && self.tiles@[j].select_order is None by {
                    if s[j].selected {
                        assert(is_dealt(self.tiles@[j]));
                    } else {
                        assert(s[j].select_order is None);
                    }
                }
                lemma_count_zero(self.tiles@, sel);
            }
        }
    }

    /// Shuffle all tiles (costs a turn)
    pub fn shuffle(&mut self, rng: &mut ChaCha8Rng)
        ensures
            final(self).cells().len() == old(self).cells().len(),
            final(self).next_order() == 1,
            forall|k: int| 0 <= k < final(self).cells().len() ==> is_fresh(#[trigger] final(self).cells()[k]),
            old(self).cells().len() == 15 ==> final(self).wf(),
    {
        let ghost n = self.tiles@.len();
        let mut i: usize = 0;
        while i < self.tiles.len()
            invariant
                i <= n,
                self.tiles@.len() == n,
                forall|j: int| 0 <= j < i ==> is_fresh(#[trigger] self.tiles@[j]),
            decreases n - i,
        {
            let t = random_tile(rng);
            self.tiles.set(i, t);
            i = i + 1;
        }
        self.next_select_order = 1;
        proof {
            let sel = |x: Tile| x.selected;
            lemma_count_zero(self.tiles@, sel);
        }
    }

    /// Cleanse one random negative tile effect (Purity book proc)
    pub fn cleanse_one_random(&mut self, rng: &mut ChaCha8Rng) -> (r: bool)
        ensures
            r == exists|k: int|
                0 <= k < old(self).cells().len() && spec_is_negative(
                    (#[trigger] old(self).cells()[k]).effect,
                ),
            !r ==> *final(self) == *old(self),
            r ==> exists|k: int|
                0 <= k < old(self).cells().len() && spec_is_negative(
                    (#[trigger] old(self).cells()[k]).effect,
                ) && final(self).cells() == old(self).cells().update(k, cleansed(old(self).cells()[k])),
            final(self).next_order() == old(self).next_order(),
            old(self).wf() ==> final(self).wf(),
    {
        let ghost s = self.tiles@;
        let mut bad: Vec<usize> = Vec::new();
        let mut i: usize = 0;
        while i < self.tiles.len()
            invariant
                i <= s.len(),
                self.tiles@ == s,
                forall|j: int| 0 <= j < bad@.len() ==> #[trigger] bad@[j] < s.len() && spec_is_negative(s[bad@[j] as int].effect),
                forall|j: int| 0 <= j < i && spec_is_negative((#[trigger] s[j]).effect) ==> bad@.contains(j as usize),
            decreases s.len() - i,
        {
            let ghost prev = bad@;
            if self.tiles[i].effect.is_negative() {
                bad.push(i);
                proof {
                    assert(bad@[prev.len() as int] == i);
                    assert forall|j: int| 0 <= j < i && spec_is_negative((#[trigger] s[j]).effect) implies bad@.contains(j as usize) by {
                        let m = choose|m: int| 0 <= m < prev.len() && prev[m] == j as usize;
                        assert(bad@[m] == j as usize);
                    }
                }
            }
            i = i + 1;
        }
        if bad.len() == 0 {
            proof {
                assert forall|k: int| 0 <= k < s.len() implies !spec_is_negative((#[trigger] s[k]).effect) by {
                    if spec_is_negative(s[k].effect) {
                        assert(bad@.contains(k as usize));
                    }
                }
            }
            return false;
        }
        match choose_one(rng, bad.as_slice()) {
            Some(k) => {
                let k = *k;
                let t = self.tiles[k];
                self.tiles.set(k, Tile { effect: TileEffect::Normal, timer: None, ..t });
                proof {
                    let j = choose|j: int| 0 <= j < bad@.len() && bad@[j] == k;
                    assert(spec_is_negative(s[k as int].effect));
                    assert(self.tiles@ =~= s.update(k as int, cleansed(s[k as int])));
                    let sel = |x: Tile| x.selected;
                    lemma_count_same(s, sel, self.tiles@, sel);
                    assert forall|o: u8| 1 <= o < self.next_order() && has_order(s, o) implies #[trigger] has_order(self.tiles@, o) by {
                        let j = choose|j: int| 0 <= j < s.len() && s[j].select_order == Some(o);
                        assert(self.tiles@[j].select_order == Some(o));
                    }
                }
                true
            },
            None => false,
        }
    }

    /// Apply a tile effect to random normal tiles on the board: `count` of
    /// them, or all of them when there are fewer.
    pub fn apply_effect_to_random(
        &mut self,
        rng: &mut ChaCha8Rng,
        effect: TileEffect,
        count: usize,
        timer: u8,
    )
        ensures
            final(self).next_order() == old(self).next_order(),
            ({
                let s = old(self).cells();
                let n = count_where(s, |t: Tile| t.effect == TileEffect::Normal);
                exists|chosen: Set<usize>|
                    {
                        &&& chosen.finite()
                        &&& chosen.len() == if count < n {
                            count as nat
                        } else {
                            n
                        }
                        &&& forall|k: usize| #[trigger]
                            chosen.contains(k) ==> k < s.len() && s[k as int].effect
                                == TileEffect::Normal
                        &&& final(self).cells() == Seq::new(
                            s.len(),
                            |k: int|
                                if chosen.contains(k as usize) {
                                    afflicted(s[k], effect, timer)
                                } else {
                                    s[k]
                                },
                        )
                    }
            }),
            old(self).wf() ==> final(self).wf(),
            afflicted_board(old(self).cells(), final(self).cells(), effect, count, timer),
    {
        let ghost s = self.tiles@;
        let ghost normal = |t: Tile| t.effect == TileEffect::Normal;
        let mut normals: Vec<usize> = Vec::new();
        let mut i: usize = 0;
        while i < self.tiles.len()
            invariant
                i <= s.len(),
                self.tiles@ == s,
                normal == (|t: Tile| t.effect == TileEffect::Normal),
                normals@.len() == count_where(s.subrange(0, i as int), normal),
                forall|j: int| 0 <= j < normals@.len() ==> #[trigger] normals@[j] < i && s[normals@[j] as int].effect == TileEffect::Normal,
                forall|a: int, b: int| 0 <= a < b < normals@.len() ==> normals@[a] < normals@[b],
            decreases s.len() - i,
        {
            proof {
                lemma_count_prefix(s, normal, i as int);
            }
            if self.tiles[i].effect == TileEffect::Normal {
                normals.push(i);
            }
            i = i + 1;
        }
        proof {
            assert(s.subrange(0, i as int) =~= s);
            assert(normals@.no_duplicates()) by {
                assert forall|a: int, b: int| 0 <= a < normals@.len() && 0 <= b < normals@.len() && a != b implies normals@[a] != normals@[b] by {
                    if a < b {
                        assert(normals@[a] < normals@[b]);
                    } else {
                        assert(normals@[b] < normals@[a]);
                    }
                }
            }
            normals@.lemma_multiset_has_no_duplicates();
        }
        let ghost before = normals@;
        shuffle(rng, &mut normals);
        let ghost v = normals@;
        proof {
            broadcast use vstd::seq_lib::group_to_multiset_ensures;
            before.to_multiset_ensures();
            v.to_multiset_ensures();
            v.lemma_multiset_has_no_duplicates_conv();
            assert forall|j: int| 0 <= j < v.len() implies #[trigger] v[j] < s.len() && s[v[j] as int].effect == TileEffect::Normal by {
                assert(v.contains(v[j]));
                assert(v.to_multiset().count(v[j]) > 0);
                assert(before.contains(v[j]));
            }
        }
        let m: usize = if count < normals.len() {
            count
        } else {
            normals.len()
        };
        let len = self.tiles.len();
        let mut j: usize = 0;
        while j < m
            invariant
                s.len() == len,
                j <= m,
                m <= v.len(),
                normals@ == v,
                v.no_duplicates(),
                self.tiles@.len() == s.len(),
                self.next_select_order == old(self).next_select_order,
                forall|q: int| 0 <= q < v.len() ==> #[trigger] v[q] < s.len() && s[v[q] as int].effect == TileEffect::Normal,
                forall|k: int|
                    0 <= k < s.len() ==> #[trigger] self.tiles@[k] == if v.subrange(0, j as int).contains(k as usize) {
                        afflicted(s[k], effect, timer)
                    } else {
                        s[k]
                    },
            decreases m - j,
        {
            let k = normals[j];
            let t = self.tiles[k];
            proof {
                assert(!v.subrange(0, j as int).contains(k)) by {
                    if v.subrange(0, j as int).contains(k) {
                        let q = choose|q: int| 0 <= q < j && #[trigger] v.subrange(0, j as int)[q] == k;
                        assert(v[q] == v[j as int]);
                    }
                }
            }
            self.tiles.set(k, Tile { effect, timer: Some(timer), ..t });
            proof {
                assert forall|kk: int| 0 <= kk < s.len() implies #[trigger] self.tiles@[kk] == if v.subrange(0, j + 1).contains(kk as usize) {
                    afflicted(s[kk], effect, timer)
                } else {
                    s[kk]
                } by {
                    if kk == k as int {
                        assert(v.subrange(0, j + 1)[j as int] == k);
                    } else {
                        if v.subrange(0, j + 1).contains(kk as usize) {
                            let q = choose|q: int| 0 <= q < j + 1 && #[trigger] v.subrange(0, j + 1)[q] == kk as usize;
                            assert(v.subrange(0, j + 1)[q] == v[q]);
                            assert(v[j as int] == k);
                            assert((kk as usize) as int == kk);
                            assert(q != j);
                            assert(v.subrange(0, j as int)[q] == v[q]);
                        }
                        if v.subrange(0, j as int).contains(kk as usize) {
                            let q = choose|q: int| 0 <= q < j && #[trigger] v.subrange(0, j as int)[q] == kk as usize;
                            assert(v.subrange(0, j as int)[q] == v[q]);
                            assert(v.subrange(0, j + 1)[q] == kk as usize);
                        }
                    }
                }
            }
            j = j + 1;
        }
        proof {
            let w = v.subrange(0, m as int);
            let chosen = w.to_set();
            assert(w.no_duplicates()) by {
                assert forall|a: int, b: int| 0 <= a < w.len() && 0 <= b < w.len() && a != b implies w[a] != w[b] by {
                    assert(w[a] == v[a] && w[b] == v[b]);
                }
            }
            w.unique_seq_to_set();
            vstd::seq_lib::seq_to_set_is_finite(w);
            assert forall|k: usize| #[trigger] chosen.contains(k) implies k < s.len() && s[k as int].effect == TileEffect::Normal by {
                let q = choose|q: int| 0 <= q < w.len() && w[q] == k;
                assert(v[q] == k);
            }
            assert(self.tiles@ =~= Seq::new(s.len(), |k: int| if chosen.contains(k as usize) {
                afflicted(s[k], effect, timer)
            } else {
                s[k]
            }));
            if selection_wf(s, old(self).next_order()) {
                let sel = |x: Tile| x.selected;
                lemma_count_same(s, sel, self.tiles@, sel);
                assert forall|o: u8| 1 <= o < self.next_order() && has_order(s, o) implies #[trigger] has_order(self.tiles@, o) by {
                    let j = choose|j: int| 0 <= j < s.len() && s[j].select_order == Some(o);
                    assert(self.tiles@[j].select_order == Some(o));
                }
            }
        }
    }
}

/// A sequence with no item satisfying `p` counts zero.
pub proof fn lemma_count_zero(s: Seq<Tile>, p: spec_fn(Tile) -> bool)
    requires
        forall|i: int| 0 <= i < s.len() ==> !p(#[trigger] s[i]),
    ensures
        count_where(s, p) == 0,
    decreases s.len(),
{
    if s.len() > 0 {
        lemma_count_zero(s.drop_last(), p);
    }
}

} // verus!

verus! {

/// Picking a free tile and then toggling it again leaves the board as it was.
pub proof fn law_toggle_twice_restores(s: Seq<Tile>, next: int, k: int)
    requires
        selection_wf(s, next),
        0 <= k < 15,
        !s[k].selected,
    ensures
        deselect(s.update(k, picked(s[k], next as u8)), k) == s,
{
    lemma_select_wf(s, next, k);
    let s2 = s.update(k, picked(s[k], next as u8));
    assert forall|i: int| 0 <= i < 15 implies #[trigger] deselect(s2, k)[i] == s[i] by {
        if i != k {
            if s[i].select_order is Some {
                assert(s[i].select_order->0 < next);
            }
        }
    }
    assert(deselect(s2, k) =~= s);
}

/// Picking a free tile and then undoing the last pick leaves the board as
/// it was.
pub proof fn law_undo_after_pick_restores(s: Seq<Tile>, next: int, k: int)
    requires
        selection_wf(s, next),
        0 <= k < 15,
        !s[k].selected,
    ensures
        ({
            let s2 = s.update(k, picked(s[k], next as u8));
            let j = pos_of_order(s2, next as u8);
            j == k && s2.update(j, cleared(s2[j])) == s
        }),
{
    lemma_select_wf(s, next, k);
    let s2 = s.update(k, picked(s[k], next as u8));
    lemma_pos_of_order(s2, next + 1, next as u8, k);
    assert(s2.update(k, cleared(s2[k])) =~= s);
}

/// Picking a free tile appends its letter to the selected word.
pub proof fn law_pick_appends_letter(s: Seq<Tile>, next: int, k: int)
    requires
        selection_wf(s, next),
        0 <= k < 15,
        !s[k].selected,
    ensures
        word_of(s.update(k, picked(s[k], next as u8)), next + 1) == word_of(s, next).push(s[k].letter),
{
    lemma_select_wf(s, next, k);
    let s2 = s.update(k, picked(s[k], next as u8));
    assert forall|i: int| 0 <= i < next - 1 implies #[trigger] word_of(s2, next + 1)[i] == word_of(s, next)[i] by {
        let o = (i + 1) as u8;
        assert(has_order(s, o));
        let j = pos_of_order(s, o);
        assert(j != k);
        lemma_pos_of_order(s2, next + 1, o, j);
    }
    lemma_pos_of_order(s2, next + 1, next as u8, k);
    assert(word_of(s2, next + 1) =~= word_of(s, next).push(s[k].letter));
}

/// Taking back the last pick drops the last letter of the selected word.
pub proof fn law_undo_drops_last_letter(s: Seq<Tile>, next: int)
    requires
        selection_wf(s, next),
        next > 1,
    ensures
        ({
            let j = pos_of_order(s, (next - 1) as u8);
            word_of(s.update(j, cleared(s[j])), next - 1) == word_of(s, next).drop_last()
        }),
{
    let last = (next - 1) as u8;
    assert(has_order(s, last));
    let j = pos_of_order(s, last);
    let s2 = s.update(j, cleared(s[j]));
    lemma_deselect_wf(s, next, j);
    assert(deselect(s, j) =~= s2) by {
        assert forall|i: int| 0 <= i < 15 && i != j implies #[trigger] deselect(s, j)[i] == s2[i] by {
            if s[i].select_order is Some {
                assert(s[i].select_order->0 < next);
            }
        }
    }
    assert forall|i: int| 0 <= i < next - 2 implies #[trigger] word_of(s2, next - 1)[i] == word_of(s, next)[i] by {
        let o = (i + 1) as u8;
        assert(has_order(s, o));
        let p = pos_of_order(s, o);
        assert(p != j);
        lemma_pos_of_order(s2, next - 1, o, p);
    }
    assert(word_of(s2, next - 1) =~= word_of(s, next).drop_last());
}

/// The selected word has one letter per selected tile.
pub proof fn law_word_length_is_selection_count(s: Seq<Tile>, next: int)
    requires
        selection_wf(s, next),
    ensures
        word_of(s, next).len() == count_where(s, |t: Tile| t.selected),
{
}

/// The neighbour of tile `k` in direction `d`, if it is on the board.
fn neighbor_of(k: usize, d: usize) -> (r: Option<usize>)
    requires
        k < 15,
        d < 4,
    ensures
        r is Some <==> neighbor(k as int, d as int) >= 0,
        r is Some ==> r->0 == neighbor(k as int, d as int) && r->0 < 15 && r->0 != k,
{
    let row = k / BOARD_COLS;
    let col = k % BOARD_COLS;
    if d == 0 {
        if col + 1 < BOARD_COLS {
            Some(k + 1)
        } else {
            None
        }
    } else if d == 1 {
        if col > 0 {
            Some(k - 1)
        } else {
            None
        }
    } else if d == 2 {
        if row + 1 < BOARD_ROWS {
            Some(k + BOARD_COLS)
        } else {
            None
        }
    } else {
        if row > 0 {
            Some(k - BOARD_COLS)
        } else {
            None
        }
    }
}

/// The neighbour in direction `d` if it shows no effect, given tiles whose
/// effects are those the board shows while tile `k` takes its turn.
fn open_neighbor(tiles: &Vec<Tile>, k: usize, d: usize, Ghost(s): Ghost<Seq<Tile>>) -> (r: Option<usize>)
    requires
        k < 15,
        d < 4,
        tiles@.len() == 15,
        s.len() == 15,
        forall|j: int|
            0 <= j < 15 && j != k ==> ((#[trigger] tiles@[j]).effect == TileEffect::Normal) == normal_when(s, j, k as int),
    ensures
        r is Some <==> open_side(s, k as int, d as int),
        r is Some ==> r->0 == neighbor(k as int, d as int) && r->0 < 15,
{
    match neighbor_of(k, d) {
        Some(j) => {
            if tiles[j].effect == TileEffect::Normal {
                Some(j)
            } else {
                None
            }
        },
        None => None,
    }
}

/// Where a duplicator at `k` copies to, under the same reading of effects.
fn duplicator_aim(tiles: &Vec<Tile>, k: usize, Ghost(s): Ghost<Seq<Tile>>) -> (r: Option<usize>)
    requires
        k < 15,
        tiles@.len() == 15,
        s.len() == 15,
        forall|j: int|
            0 <= j < 15 && j != k ==> ((#[trigger] tiles@[j]).effect == TileEffect::Normal) == normal_when(s, j, k as int),
    ensures
        r is Some <==> duplicator_target(s, k as int) >= 0,
        r is Some ==> r->0 == duplicator_target(s, k as int) && r->0 < 15,
{
    if let Some(j) = open_neighbor(tiles, k, 0, Ghost(s)) {
        return Some(j);
    }
    if let Some(j) = open_neighbor(tiles, k, 1, Ghost(s)) {
        return Some(j);
    }
    if let Some(j) = open_neighbor(tiles, k, 2, Ghost(s)) {
        return Some(j);
    }
    if let Some(j) = open_neighbor(tiles, k, 3, Ghost(s)) {
        return Some(j);
    }
    None
}

/// Marks every free neighbour of the plague tile at `k`.
fn mark_plague(marks: &mut Vec<bool>, tiles: &Vec<Tile>, k: usize, Ghost(s): Ghost<Seq<Tile>>)
    requires
        k < 15,
        tiles@.len() == 15,
        s.len() == 15,
        old(marks)@.len() == 15,
        forall|j: int|
            0 <= j < 15 && j != k ==> ((#[trigger] tiles@[j]).effect == TileEffect::Normal) == normal_when(s, j, k as int),
    ensures
        final(marks)@.len() == 15,
        forall|j: int|
            0 <= j < 15 ==> #[trigger] final(marks)@[j] == (old(marks)@[j] || exists|dd: int|
                0 <= dd < 4 && #[trigger] neighbor(k as int, dd) == j && normal_when(s, j, k as int)),
{
    let ghost marks0 = marks@;
    let mut d: usize = 0;
    while d < 4
        invariant
            k < 15,
            d <= 4,
            s.len() == 15,
            tiles@.len() == 15,
            forall|j: int|
                0 <= j < 15 && j != k ==> ((#[trigger] tiles@[j]).effect == TileEffect::Normal) == normal_when(s, j, k as int),
            marks@.len() == 15,
            forall|j: int|
                0 <= j < 15 ==> #[trigger] marks@[j] == (marks0[j] || exists|dd: int|
                    0 <= dd < d && #[trigger] neighbor(k as int, dd) == j && normal_when(s, j, k as int)),
        decreases 4 - d,
    {
        let ghost before = marks@;
        let o = open_neighbor(tiles, k, d, Ghost(s));
        if let Some(j) = o {
            marks.set(j, true);
        }
        proof {
            assert forall|j: int| 0 <= j < 15 implies #[trigger] marks@[j] == (marks0[j] || exists|dd: int|
                0 <= dd < d + 1 && #[trigger] neighbor(k as int, dd) == j && normal_when(s, j, k as int)) by {
                if o is Some && j == o->0 {
                    assert(neighbor(k as int, d as int) == j);
                } else {
                    if exists|dd: int| 0 <= dd < d + 1 && #[trigger] neighbor(k as int, dd) == j && normal_when(s, j, k as int) {
                        let dd = choose|dd: int| 0 <= dd < d + 1 && #[trigger] neighbor(k as int, dd) == j && normal_when(s, j, k as int);
                        if dd == d {
                            assert(open_side(s, k as int, d as int));
                        }
                        assert(before[j]);
                    }
                }
            }
        }
        d = d + 1;
    }
}

impl Board {
    /// Tick all tile effects (called at end of each turn): timers run down
    /// and expired effects fall off, whirlwind tiles spin to a random
    /// letter, plague spreads to free neighbours and duplicators copy their
    /// letter onto one free neighbour.
    pub fn tick_effects(&mut self, rng: &mut ChaCha8Rng)
        requires
            old(self).cells().len() == 15,
        ensures
            final(self).next_order() == old(self).next_order(),
            exists|letters: Seq<char>|
                {
                    &&& letters.len() == 15
                    &&& forall|j: int|
                        0 <= j < 15 ==> #[trigger] is_upper_letter(letters[j]) || !(old(self).cells()[j].effect
                            == TileEffect::Whirlwind && !expires(old(self).cells()[j]))
                    &&& final(self).cells() == ticked(old(self).cells(), letters)
                },
            old(self).wf() ==> final(self).wf(),
            ticked_board(old(self).cells(), final(self).cells()),
    {
        let ghost s = self.tiles@;
        let ghost mut letters: Seq<char> = Seq::empty();
        let mut plague_mark: Vec<bool> = Vec::new();
        let mut copy_mark: Vec<Option<char>> = Vec::new();
        let mut i: usize = 0;
        while i < BOARD_TILES
            invariant
                i <= 15,
                plague_mark@.len() == i,
                copy_mark@.len() == i,
                forall|j: int| 0 <= j < i ==> !(#[trigger] plague_mark@[j]),
                forall|j: int| 0 <= j < i ==> (#[trigger] copy_mark@[j]) is None,
            decreases 15 - i,
        {
            plague_mark.push(false);
            copy_mark.push(None);
            i = i + 1;
        }
        let mut k: usize = 0;
        while k < BOARD_TILES
            invariant
                k <= 15,
                s.len() == 15,
                self.tiles@.len() == 15,
                self.next_select_order == old(self).next_select_order,
                letters.len() == k,
                plague_mark@.len() == 15,
                copy_mark@.len() == 15,
                forall|j: int| 0 <= j < k ==> #[trigger] self.tiles@[j] == after_tick(s[j], letters[j]),
                forall|j: int| k <= j < 15 ==> #[trigger] self.tiles@[j] == s[j],
                forall|j: int|
                    0 <= j < k ==> #[trigger] is_upper_letter(letters[j]) || !(s[j].effect == TileEffect::Whirlwind
                        && !expires(s[j])),
                forall|j: int| 0 <= j < 15 ==> #[trigger] plague_mark@[j] == plague_reaches(s, j, k as int),
                forall|j: int| 0 <= j < 15 ==> #[trigger] copy_mark@[j] == copied_letter(s, j, k as int),
            decreases 15 - k,
        {
            let t = self.tiles[k];
            let timer: Option<u8> = match t.timer {
                Some(x) => if x > 0 {
                    Some(x - 1)
                } else {
                    Some(0)
                },
                None => None,
            };
            let expired = timer == Some(0u8);
            let mut letter = t.letter;
            if t.effect == TileEffect::Whirlwind && !expired {
                letter = random_letter(rng);
            }
            proof {
                letters = letters.push(letter);
                assert(expired == expires(s[k as int]));
                assert forall|j: int| 0 <= j < 15 && j != k implies ((#[trigger] self.tiles@[j]).effect
                    == TileEffect::Normal) == normal_when(s, j, k as int) by {
                    if j < k {
                        assert(self.tiles@[j] == after_tick(s[j], letters[j]));
                    }
                }
            }
            let ghost marks0 = plague_mark@;
            if t.effect == TileEffect::Plague && !expired {
                mark_plague(&mut plague_mark, &self.tiles, k, Ghost(s));
                proof {
                    assert forall|j: int| 0 <= j < 15 implies #[trigger] plague_mark@[j] == plague_reaches(s, j, k + 1) by {
                        if plague_mark@[j] && !marks0[j] {
                            let dd = choose|dd: int| 0 <= dd < 4 && #[trigger] neighbor(k as int, dd) == j && normal_when(s, j, k as int);
                            assert(plague_reaches(s, j, k + 1));
                        }
                        if plague_reaches(s, j, k + 1) && !marks0[j] {
                            let (kk, dd) = choose|kk: int, dd: int| 0 <= kk < k + 1 && 0 <= dd < 4 && plague_active(s[kk]) && #[trigger] neighbor(kk, dd) == j && normal_when(s, j, kk);
                            if kk < k {
                                assert(plague_reaches(s, j, k as int));
                            }
                            assert(kk == k);
                        }
                    }
                }
            } else {
                proof {
                    assert forall|j: int| 0 <= j < 15 implies #[trigger] plague_mark@[j] == plague_reaches(s, j, k + 1) by {
                        if plague_reaches(s, j, k + 1) {
                            let (kk, dd) = choose|kk: int, dd: int| 0 <= kk < k + 1 && 0 <= dd < 4 && plague_active(s[kk]) && #[trigger] neighbor(kk, dd) == j && normal_when(s, j, kk);
                            assert(kk != k);
                            assert(plague_reaches(s, j, k as int));
                        }
                    }
                }
            }
            if t.effect == TileEffect::Duplicator && !expired {
                let aim = duplicator_aim(&self.tiles, k, Ghost(s));
                if let Some(j) = aim {
                    copy_mark.set(j, Some(t.letter));
                }
            }
            proof {
                assert forall|j: int| 0 <= j < 15 implies #[trigger] copy_mark@[j] == copied_letter(s, j, k + 1) by {
                    assert(copied_letter(s, j, k + 1) == if duplicator_active(s[k as int]) && duplicator_target(s, k as int) == j {
                        Some(s[k as int].letter)
                    } else {
                        copied_letter(s, j, k as int)
                    });
                }
            }
            let nt = if expired {
                Tile { effect: TileEffect::Normal, timer: None, ..t }
            } else {
                Tile { timer, letter, ..t }
            };
            self.tiles.set(k, nt);
            proof {
                assert(nt == after_tick(s[k as int], letters[k as int]));
            }
            k = k + 1;
        }
        let ghost mid = self.tiles@;
        let mut j: usize = 0;
        while j < BOARD_TILES
            invariant
                j <= 15,
                s.len() == 15,
                letters.len() == 15,
                mid.len() == 15,
                self.tiles@.len() == 15,
                plague_mark@.len() == 15,
                copy_mark@.len() == 15,
                self.next_select_order == old(self).next_select_order,
                forall|q: int| 0 <= q < 15 ==> #[trigger] mid[q] == after_tick(s[q], letters[q]),
                forall|q: int| 0 <= q < 15 ==> #[trigger] plague_mark@[q] == plague_reaches(s, q, 15),
                forall|q: int| 0 <= q < 15 ==> #[trigger] copy_mark@[q] == copied_letter(s, q, 15),
                forall|q: int| 0 <= q < j ==> #[trigger] self.tiles@[q] == ticked_tile(s, letters, q),
                forall|q: int| j <= q < 15 ==> #[trigger] self.tiles@[q] == mid[q],
            decreases 15 - j,
        {
            let t = self.tiles[j];
            let spread = plague_mark[j];
            let copied = copy_mark[j];
            if t.effect == TileEffect::Normal {
                if spread {
                    self.tiles.set(j, Tile { effect: TileEffect::Plague, timer: Some(3), ..t });
                } else {
                    match copied {
                        Some(c) => {
                            let mut nt = t;
                            nt.letter = c;
                            self.tiles.set(j, nt);
                        },
                        None => {},
                    }
                }
            }
            proof {
                assert(t == after_tick(s[j as int], letters[j as int]));
                assert(self.tiles@[j as int] == ticked_tile(s, letters, j as int));
            }
            j = j + 1;
        }
        proof {
            assert(self.tiles@ =~= ticked(s, letters));
            if selection_wf(s, old(self).next_order()) {
                let sel = |x: Tile| x.selected;
                assert forall|q: int| 0 <= q < 15 implies (#[trigger] self.tiles@[q]).selected == s[q].selected
                    && self.tiles@[q].select_order == s[q].select_order by {
                    assert(self.tiles@[q] == ticked_tile(s, letters, q));
                }
                lemma_count_same(s, sel, self.tiles@, sel);
                assert forall|o: u8| 1 <= o < self.next_order() && has_order(s, o) implies #[trigger] has_order(self.tiles@, o) by {
                    let q = choose|q: int| 0 <= q < s.len() && s[q].select_order == Some(o);
                    assert(self.tiles@[q].select_order == Some(o));
                }
            }
        }
    }
}

/// How many selected tiles of `s` carry `effect`.
pub open spec fn count_with_effect(s: Seq<Tile>, effect: TileEffect) -> nat {
    count_where(s, |t: Tile| t.selected && t.effect == effect)
}

/// The selected tiles counted effect by effect, over every effect there is.
pub open spec fn counts_over_effects(s: Seq<Tile>) -> nat {
    count_with_effect(s, TileEffect::Normal) + count_with_effect(s, TileEffect::Crystal) + count_with_effect(s, TileEffect::Poison) + count_with_effect(s, TileEffect::Spike) + count_with_effect(s, TileEffect::Plague) + count_with_effect(s, TileEffect::Stone) + count_with_effect(s, TileEffect::Whirlwind) + count_with_effect(s, TileEffect::Duplicator) + count_with_effect(s, TileEffect::Flipped) + count_with_effect(s, TileEffect::Broken)
}

/// Counting the selected tiles effect by effect, over all the effects,
/// counts every selected tile once.
pub proof fn law_effect_counts_sum_to_selection(s: Seq<Tile>)
    ensures
        counts_over_effects(s) == count_where(s, |t: Tile| t.selected),
    decreases s.len(),
{
    if s.len() > 0 {
        law_effect_counts_sum_to_selection(s.drop_last());
    }
}

/// Undo takes back a pick: picking a free tile and then undoing the last
/// pick leaves every tile, and the number the next pick will carry, as they
/// were.
pub proof fn law_undo_reverses_pick(b0: Board, b1: Board, b2: Board, row: int, col: int)
    requires
        b0.wf(),
        0 <= row < 3,
        0 <= col < 5,
        b0.cells()[pos(row, col)].spec_is_selectable(),
        !b0.cells()[pos(row, col)].selected,
        toggle_result(b0, b1, row, col),
        undo_result(b1, b2),
    ensures
        b2.cells() == b0.cells(),
        b2.next_order() == b0.next_order(),
{
    law_undo_after_pick_restores(b0.cells(), b0.next_order(), pos(row, col));
}

/// Plague spreads: after a turn's effects, every effect-free tile beside
/// (left, right, above or below) a plague tile whose timer does not run out
/// this turn carries the plague for three turns, and the plague tile itself
/// stays plague with its timer one turn shorter.
pub proof fn law_plague_spreads(s: Seq<Tile>, t: Seq<Tile>, k: int, j: int)
    requires
        s.len() == 15,
        ticked_board(s, t),
        0 <= k < 15,
        0 <= j < 15,
        (j == k + 1 && k % 5 != 4) || (j == k - 1 && k % 5 != 0) || j == k + 5 || j == k - 5,
        s[k].effect == TileEffect::Plague,
        s[k].timer matches Some(x) ==> x >= 2,
        s[j].effect == TileEffect::Normal,
    ensures
        t[j].effect == TileEffect::Plague,
        t[j].timer == Some(3u8),
        t[k].effect == TileEffect::Plague,
        t[k].timer == match s[k].timer {
            Some(x) => Some((x - 1) as u8),
            None => None,
        },
{
    let letters = choose|letters: Seq<char>|
        {
            &&& letters.len() == 15
            &&& forall|i: int|
                0 <= i < 15 ==> #[trigger] is_upper_letter(letters[i]) || !(s[i].effect == TileEffect::Whirlwind
                    && !expires(s[i]))
            &&& t == ticked(s, letters)
        };
    let d: int = if j == k + 1 && k % 5 != 4 {
        0
    } else if j == k - 1 && k % 5 != 0 {
        1
    } else if j == k + 5 {
        2
    } else {
        3
    };
    assert(neighbor(k, d) == j);
    assert(plague_active(s[k]));
    assert(normal_when(s, j, k));
    assert(plague_reaches(s, j, 15));
    assert(t[j] == ticked_tile(s, letters, j));
    assert(t[k] == ticked_tile(s, letters, k));
}

/// The letters of a turn's whirlwinds that make `t` out of `s`.
spec fn tick_letters(s: Seq<Tile>, t: Seq<Tile>) -> Seq<char> {
    choose|letters: Seq<char>|
        {
            &&& letters.len() == 15
            &&& forall|i: int|
                0 <= i < 15 ==> #[trigger] is_upper_letter(letters[i]) || !(s[i].effect == TileEffect::Whirlwind
                    && !expires(s[i]))
            &&& t == ticked(s, letters)
        }
}

/// Effects run their course: after a turn's effects, a tile with an effect
/// whose timer has two or more turns left keeps the effect with one turn
/// less (and its letter, unless it is a whirlwind); a tile whose timer runs
/// out loses its effect and timer, unless a neighbouring plague catches it
/// at once, for three turns.
pub proof fn law_effect_timers_run_down(s: Seq<Tile>, t: Seq<Tile>, j: int)
    requires
        s.len() == 15,
        ticked_board(s, t),
        0 <= j < 15,
    ensures
        s[j].effect != TileEffect::Normal && (s[j].timer matches Some(x) && x >= 2) ==> t[j].effect == s[j].effect
            && t[j].timer == Some((s[j].timer->0 - 1) as u8),
        s[j].effect != TileEffect::Normal && s[j].effect != TileEffect::Whirlwind && !(s[j].timer matches Some(x)
            && x <= 1) ==> t[j].letter == s[j].letter,
        (s[j].timer matches Some(x) && x <= 1) ==> (t[j].effect == TileEffect::Normal && t[j].timer is None) || (
        t[j].effect == TileEffect::Plague && t[j].timer == Some(3u8)),
        s[j].effect != TileEffect::Normal && s[j].timer is None ==> t[j].effect == s[j].effect && t[j].timer is None,
        s[j].effect == TileEffect::Whirlwind && !(s[j].timer matches Some(x) && x <= 1) ==> is_upper_letter(
            t[j].letter,
        ),
{
    let letters = tick_letters(s, t);
    assert(t[j] == ticked_tile(s, letters, j));
    assert(is_upper_letter(letters[j]) || !(s[j].effect == TileEffect::Whirlwind && !expires(s[j])));
}

/// How a copied letter comes about: some active duplicator aims at the
/// tile.
proof fn lemma_copied_from_a_duplicator(s: Seq<Tile>, j: int, n: int)
    requires
        0 <= n <= s.len(),
        copied_letter(s, j, n) is Some,
    ensures
        exists|k: int| 0 <= k < n && duplicator_active(s[k]) && #[trigger] duplicator_target(s, k) == j,
    decreases n,
{
    if !(duplicator_active(s[n - 1]) && duplicator_target(s, n - 1) == j) {
        lemma_copied_from_a_duplicator(s, j, n - 1);
        let k = choose|k: int| 0 <= k < n - 1 && duplicator_active(s[k]) && #[trigger] duplicator_target(s, k) == j;
        assert(duplicator_target(s, k) == j);
    } else {
        assert(duplicator_target(s, n - 1) == j);
    }
}

/// A quiet tile stays as it is: an effect-free tile without a timer, with
/// no plague or duplicator tile beside it, is unchanged by a turn's effects.
pub proof fn law_quiet_tile_stays(s: Seq<Tile>, t: Seq<Tile>, j: int)
    requires
        s.len() == 15,
        ticked_board(s, t),
        0 <= j < 15,
        s[j].effect == TileEffect::Normal,
        s[j].timer is None,
        forall|k: int|
            0 <= k < 15 && ((k == j + 1 && j % 5 != 4) || (k == j - 1 && j % 5 != 0) || k == j + 5 || k == j - 5)
                ==> (#[trigger] s[k]).effect != TileEffect::Plague && s[k].effect != TileEffect::Duplicator,
    ensures
        t[j] == s[j],
{
    let letters = tick_letters(s, t);
    assert(t[j] == ticked_tile(s, letters, j));
    if plague_reaches(s, j, 15) {
        let (k, d) = choose|k: int, d: int|
            0 <= k < 15 && 0 <= d < 4 && plague_active(s[k]) && #[trigger] neighbor(k, d) == j && normal_when(s, j, k);
        assert(s[k].effect == TileEffect::Plague);
        assert(false);
    }
    if copied_letter(s, j, 15) is Some {
        lemma_copied_from_a_duplicator(s, j, 15);
        let k = choose|k: int| 0 <= k < 15 && duplicator_active(s[k]) && #[trigger] duplicator_target(s, k) == j;
        assert(s[k].effect == TileEffect::Duplicator);
        assert(false);
    }
    assert(after_tick(s[j], letters[j]) == s[j]);
}

} // verus!
