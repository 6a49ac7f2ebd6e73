//! Statistics of one run.

use vstd::prelude::*;

verus! {

/// How many recent words the history keeps.
pub const WORD_HISTORY_LEN: usize = 20;

#[derive(Debug, Clone)]
pub struct RunStats {
    pub words_submitted: u32,
    pub total_damage_dealt: u64,
    pub total_damage_taken: u64,
    pub enemies_defeated: u32,
    pub bosses_defeated: u32,
    pub crits_landed: u32,
    pub dodges: u32,
    pub longest_word: String,
    pub highest_damage_word: String,
    pub highest_damage: i32,
    pub potions_used: u32,
    pub gems_earned: u64,
    pub gems_spent: u64,
    pub tiles_shuffled: u32,
    pub word_history: Vec<String>,
}

impl Default for RunStats {
    fn default() -> (s: Self)
        ensures
            s.words_submitted == 0,
            s.total_damage_dealt == 0,
            s.total_damage_taken == 0,
            s.enemies_defeated == 0,
            s.bosses_defeated == 0,
            s.crits_landed == 0,
            s.dodges == 0,
            s.longest_word@ == Seq::<char>::empty(),
            s.highest_damage_word@ == Seq::<char>::empty(),
            s.highest_damage == 0,
            s.potions_used == 0,
            s.gems_earned == 0,
            s.gems_spent == 0,
            s.tiles_shuffled == 0,
            s.word_history@ == Seq::<String>::empty(),
    {
        RunStats {
            words_submitted: 0,
            total_damage_dealt: 0,
            total_damage_taken: 0,
            enemies_defeated: 0,
            bosses_defeated: 0,
            crits_landed: 0,
            dodges: 0,
            longest_word: String::new(),
            highest_damage_word: String::new(),
            highest_damage: 0,
            potions_used: 0,
            gems_earned: 0,
            gems_spent: 0,
            tiles_shuffled: 0,
            word_history: Vec::new(),
        }
    }
}

/// Length in bytes of the UTF-8 encoding.
pub open spec fn byte_len(s: Seq<char>) -> nat {
    vstd::utf8::encode_utf8(s).len()
}

/// The history after recording `w`: appended, keeping only the last twenty.
pub open spec fn history_after(h: Seq<Seq<char>>, w: Seq<char>) -> Seq<Seq<char>> {
    if h.len() + 1 > 20 {
        h.push(w).subrange(1, h.len() as int + 1)
    } else {
        h.push(w)
    }
}

pub open spec fn texts(v: Seq<String>) -> Seq<Seq<char>> {
    v.map_values(|s: String| s@)
}

/// `s` holds the same values as `t`.
pub open spec fn same_stats(s: RunStats, t: RunStats) -> bool {
    &&& s == (RunStats { word_history: s.word_history, ..t })
    &&& s.word_history@ == t.word_history@
}

impl RunStats {
    /// A copy of the statistics, to be kept apart (as in a saved run).
    pub fn snapshot(&self) -> (s: RunStats)
        ensures
            same_stats(s, *self),
    {
        let word_history = self.word_history.clone();
        proof {
            assert(word_history@ =~= self.word_history@);
        }
        RunStats {
            words_submitted: self.words_submitted,
            total_damage_dealt: self.total_damage_dealt,
            total_damage_taken: self.total_damage_taken,
            enemies_defeated: self.enemies_defeated,
            bosses_defeated: self.bosses_defeated,
            crits_landed: self.crits_landed,
            dodges: self.dodges,
            longest_word: self.longest_word.clone(),
            highest_damage_word: self.highest_damage_word.clone(),
            highest_damage: self.highest_damage,
            potions_used: self.potions_used,
            gems_earned: self.gems_earned,
            gems_spent: self.gems_spent,
            tiles_shuffled: self.tiles_shuffled,
            word_history,
        }
    }

    /// Records a submitted word and the damage it did.
    pub fn record_word(&mut self, word: &str, damage: i32, is_crit: bool)
        requires
            old(self).words_submitted < u32::MAX,
            old(self).total_damage_dealt + (damage as u64) <= u64::MAX,
            is_crit ==> old(self).crits_landed < u32::MAX,
        ensures
            final(self).words_submitted == old(self).words_submitted + 1,
            final(self).total_damage_dealt == old(self).total_damage_dealt + (damage as u64),
            final(self).longest_word@ == if byte_len(word@) > byte_len(old(self).longest_word@) {
                word@
            } else {
                old(self).longest_word@
            },
            final(self).highest_damage == if damage > old(self).highest_damage {
                damage
            } else {
                old(self).highest_damage
            },
            final(self).highest_damage_word@ == if damage > old(self).highest_damage {
                word@
            } else {
                old(self).highest_damage_word@
            },
            final(self).crits_landed == old(self).crits_landed + if is_crit {
                1int
            } else {
                0int
            },
            texts(final(self).word_history@) == history_after(texts(old(self).word_history@), word@),
            final(self).total_damage_taken == old(self).total_damage_taken,
            final(self).enemies_defeated == old(self).enemies_defeated,
            final(self).bosses_defeated == old(self).bosses_defeated,
            final(self).dodges == old(self).dodges,
            final(self).potions_used == old(self).potions_used,
            final(self).gems_earned == old(self).gems_earned,
            final(self).gems_spent == old(self).gems_spent,
            final(self).tiles_shuffled == old(self).tiles_shuffled,
    {
        self.words_submitted = self.words_submitted + 1;
        self.total_damage_dealt = self.total_damage_dealt + damage as u64;
        if word.as_bytes().len() > self.longest_word.as_str().as_bytes().len() {
            self.longest_word = String::from_str(word);
        }
        if damage > self.highest_damage {
            self.highest_damage = damage;
            self.highest_damage_word = String::from_str(word);
        }
        if is_crit {
            self.crits_landed = self.crits_landed + 1;
        }
        let ghost before = self.word_history@;
        self.word_history.push(String::from_str(word));
        if self.word_history.len() > WORD_HISTORY_LEN {
            self.word_history.remove(0);
        }
        proof {
            if before.len() + 1 > 20 {
                assert(texts(self.word_history@) =~= texts(before).push(word@).subrange(1, before.len() as int + 1));
            } else {
                assert(texts(self.word_history@) =~= texts(before).push(word@));
            }
        }
    }

    pub fn record_enemy_defeated(&mut self, is_boss: bool)
        requires
            old(self).enemies_defeated < u32::MAX,
            is_boss ==> old(self).bosses_defeated < u32::MAX,
        ensures
            final(self).enemies_defeated == old(self).enemies_defeated + 1,
            final(self).bosses_defeated == old(self).bosses_defeated + if is_boss {
                1int
            } else {
                0int
            },
            *final(self) == (RunStats {
                enemies_defeated: final(self).enemies_defeated,
                bosses_defeated: final(self).bosses_defeated,
                ..*old(self)
            }),
    {
        self.enemies_defeated = self.enemies_defeated + 1;
        if is_boss {
            self.bosses_defeated = self.bosses_defeated + 1;
        }
    }

    pub fn record_damage_taken(&mut self, damage: i32)
        requires
            old(self).total_damage_taken + (damage as u64) <= u64::MAX,
        ensures
            final(self).total_damage_taken == old(self).total_damage_taken + (damage as u64),
            *final(self) == (RunStats { total_damage_taken: final(self).total_damage_taken, ..*old(self) }),
    {
        self.total_damage_taken = self.total_damage_taken + damage as u64;
    }

    pub fn record_dodge(&mut self)
        requires
            old(self).dodges < u32::MAX,
        ensures
            final(self).dodges == old(self).dodges + 1,
            *final(self) == (RunStats { dodges: final(self).dodges, ..*old(self) }),
    {
        self.dodges = self.dodges + 1;
    }
}

/// The history never holds more than twenty words, and after recording a
/// word that word is the latest one.
pub proof fn law_history_is_bounded(h: Seq<Seq<char>>, w: Seq<char>)
    requires
        h.len() <= 20,
    ensures
        history_after(h, w).len() <= 20,
        history_after(h, w).len() > 0,
        history_after(h, w).last() == w,
{
}

} // verus!
