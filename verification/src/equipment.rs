//! Weapons, books and potions.

use vstd::prelude::*;

verus! {

#[derive(Debug, Clone, Copy, PartialEq, Eq, Structural)]
pub enum WeaponKind {
    BasicScythe,
    VenomScythe,
    CrystalScythe,
    ThunderScythe,
    VampireScythe,
    GiantScythe,
}

#[derive(Debug, Clone, Copy, PartialEq, Eq, Structural)]
pub struct Weapon {
    pub kind: WeaponKind,
    pub level: u32,
}

pub open spec fn weapon_name(kind: WeaponKind) -> Seq<char> {
    match kind {
        WeaponKind::BasicScythe => "Basic Scythe"@,
        WeaponKind::VenomScythe => "Venom Scythe"@,
        WeaponKind::CrystalScythe => "Crystal Scythe"@,
        WeaponKind::ThunderScythe => "Thunder Scythe"@,
        WeaponKind::VampireScythe => "Vampire Scythe"@,
        WeaponKind::GiantScythe => "Giant Scythe"@,
    }
}

pub open spec fn weapon_price(kind: WeaponKind) -> u64 {
    match kind {
        WeaponKind::BasicScythe => 0,
        WeaponKind::VenomScythe => 150,
        WeaponKind::CrystalScythe => 200,
        WeaponKind::ThunderScythe => 300,
        WeaponKind::VampireScythe => 250,
        WeaponKind::GiantScythe => 350,
    }
}

/// What the next weapon level costs: 50 (level + 1)².
pub open spec fn upgrade_price(level: int) -> int {
    50 * (level + 1) * (level + 1)
}

impl Default for Weapon {
    fn default() -> (w: Self)
        ensures
            w == (Weapon { kind: WeaponKind::BasicScythe, level: 1 }),
    {
        Weapon { kind: WeaponKind::BasicScythe, level: 1 }
    }
}

impl Weapon {
    pub fn name(&self) -> (r: &'static str)
        ensures
            r@ == weapon_name(self.kind),
    {
        match self.kind {
            WeaponKind::BasicScythe => "Basic Scythe",
            WeaponKind::VenomScythe => "Venom Scythe",
            WeaponKind::CrystalScythe => "Crystal Scythe",
            WeaponKind::ThunderScythe => "Thunder Scythe",
            WeaponKind::VampireScythe => "Vampire Scythe",
            WeaponKind::GiantScythe => "Giant Scythe",
        }
    }

    pub fn upgrade_cost(&self) -> (r: u64)
        requires
            upgrade_price(self.level as int) <= u64::MAX,
        ensures
            r == upgrade_price(self.level as int),
    {
        let n: u64 = self.level as u64 + 1;
        assert(n * n <= 50 * n * n) by (nonlinear_arith);
        50 * n * n
    }

    pub fn buy_cost(kind: &WeaponKind) -> (r: u64)
        ensures
            r == weapon_price(*kind),
    {
        match kind {
            WeaponKind::BasicScythe => 0,
            WeaponKind::VenomScythe => 150,
            WeaponKind::CrystalScythe => 200,
            WeaponKind::ThunderScythe => 300,
            WeaponKind::VampireScythe => 250,
            WeaponKind::GiantScythe => 350,
        }
    }
}

#[derive(Debug, Clone, Copy, PartialEq, Eq, Structural)]
pub enum BookKind {
    Strength,
    Wisdom,
    Health,
    Speed,
    Purity,
    Wealth,
}

#[derive(Debug, Clone, Copy, PartialEq, Eq, Structural)]
pub struct Book {
    pub kind: BookKind,
    pub level: u32,
    pub xp: u32,
}

pub open spec fn book_name(kind: BookKind) -> Seq<char> {
    match kind {
        BookKind::Strength => "Book of Strength"@,
        BookKind::Wisdom => "Book of Wisdom"@,
        BookKind::Health => "Book of Health"@,
        BookKind::Speed => "Book of Speed"@,
        BookKind::Purity => "Book of Purity"@,
        BookKind::Wealth => "Book of Wealth"@,
    }
}

pub open spec fn book_short_name(kind: BookKind) -> Seq<char> {
    match kind {
        BookKind::Strength => "STR"@,
        BookKind::Wisdom => "WIS"@,
        BookKind::Health => "HP"@,
        BookKind::Speed => "SPD"@,
        BookKind::Purity => "PUR"@,
        BookKind::Wealth => "GEM"@,
    }
}

pub open spec fn book_price(kind: BookKind) -> u64 {
    match kind {
        BookKind::Strength => 100,
        BookKind::Wisdom => 120,
        BookKind::Health => 80,
        BookKind::Speed => 150,
        BookKind::Purity => 130,
        BookKind::Wealth => 200,
    }
}

/// Experience needed to pass `level`: 10 level².
pub open spec fn xp_needed(level: nat) -> nat {
    10 * level * level
}

pub proof fn lemma_xp_needed_positive(level: nat)
    requires
        level >= 1,
    ensures
        xp_needed(level) >= 10,
{
    assert(10 * level * level >= 10) by (nonlinear_arith)
        requires
            level >= 1,
    ;
}

/// Level and experience once every level-up that `xp` pays for is taken.
pub open spec fn settle(level: nat, xp: nat) -> (nat, nat)
    decreases xp, if level == 0 {
        1int
    } else {
        0int
    },
{
    if xp >= xp_needed(level) {
        if level == 0 {
            settle(1, xp)
        } else {
            proof {
                lemma_xp_needed_positive(level);
            }
            settle(level + 1, (xp - xp_needed(level)) as nat)
        }
    } else {
        (level, xp)
    }
}

/// Whether settling stays within `u32` at every step.
pub open spec fn settle_fits(level: nat, xp: nat) -> bool
    decreases xp, if level == 0 {
        1int
    } else {
        0int
    },
{
    &&& xp_needed(level) <= u32::MAX
    &&& xp >= xp_needed(level) ==> level + 1 <= u32::MAX && if level == 0 {
        settle_fits(1, xp)
    } else {
        proof {
            lemma_xp_needed_positive(level);
        }
        settle_fits(level + 1, (xp - xp_needed(level)) as nat)
    }
}

/// All experience earned to reach `level` from level 1: 10 (1² + … + (level-1)²).
pub open spec fn xp_before(level: nat) -> nat
    decreases level,
{
    if level <= 1 {
        0
    } else {
        xp_before((level - 1) as nat) + xp_needed((level - 1) as nat)
    }
}

impl Book {
    pub fn new(kind: BookKind) -> (b: Book)
        ensures
            b == (Book { kind, level: 1, xp: 0 }),
    {
        Book { kind, level: 1, xp: 0 }
    }

    pub fn name(&self) -> (r: &'static str)
        ensures
            r@ == book_name(self.kind),
    {
        match self.kind {
            BookKind::Strength => "Book of Strength",
            BookKind::Wisdom => "Book of Wisdom",
            BookKind::Health => "Book of Health",
            BookKind::Speed => "Book of Speed",
            BookKind::Purity => "Book of Purity",
            BookKind::Wealth => "Book of Wealth",
        }
    }

    pub fn short_name(&self) -> (r: &'static str)
        ensures
            r@ == book_short_name(self.kind),
    {
        match self.kind {
            BookKind::Strength => "STR",
            BookKind::Wisdom => "WIS",
            BookKind::Health => "HP",
            BookKind::Speed => "SPD",
            BookKind::Purity => "PUR",
            BookKind::Wealth => "GEM",
        }
    }

    pub fn xp_to_next_level(&self) -> (r: u32)
        requires
            xp_needed(self.level as nat) <= u32::MAX,
        ensures
            r == xp_needed(self.level as nat),
    {
        let l = self.level;
        proof {
            assert(10 * l <= 10 * l * l) by (nonlinear_arith);
        }
        10 * l * l
    }

    /// Gains experience and takes every level-up it pays for.
    pub fn add_xp(&mut self, amount: u32)
        requires
            old(self).xp + amount <= u32::MAX,
            settle_fits(old(self).level as nat, (old(self).xp + amount) as nat),
        ensures
            final(self).kind == old(self).kind,
            (final(self).level as nat, final(self).xp as nat) == settle(
                old(self).level as nat,
                (old(self).xp + amount) as nat,
            ),
    {
        self.xp = self.xp + amount;
        while self.xp >= self.xp_to_next_level()
            invariant
                self.kind == old(self).kind,
                settle_fits(self.level as nat, self.xp as nat),
                settle(self.level as nat, self.xp as nat) == settle(
                    old(self).level as nat,
                    (old(self).xp + amount) as nat,
                ),
            decreases self.xp, if self.level == 0 {
                1int
            } else {
                0int
            },
        {
            proof {
                if self.level >= 1 {
                    lemma_xp_needed_positive(self.level as nat);
                }
            }
            self.xp = self.xp - self.xp_to_next_level();
            self.level = self.level + 1;
        }
    }

    pub fn buy_cost(kind: &BookKind) -> (r: u64)
        ensures
            r == book_price(*kind),
    {
        match kind {
            BookKind::Strength => 100,
            BookKind::Wisdom => 120,
            BookKind::Health => 80,
            BookKind::Speed => 150,
            BookKind::Purity => 130,
            BookKind::Wealth => 200,
        }
    }
}

/// Level and experience after settling `xp` from `level`, or `None` when
/// some step of it would leave `u32`.
pub fn settle_checked(level: u32, xp: u64) -> (r: Option<(u32, u32)>)
    ensures
        r is Some <==> settle_fits(level as nat, xp as nat),
        r matches Some(v) ==> (v.0 as nat, v.1 as nat) == settle(level as nat, xp as nat),
{
    let mut l: u32 = level;
    let mut x: u64 = xp;
    loop
        invariant
            settle_fits(l as nat, x as nat) == settle_fits(level as nat, xp as nat),
            settle(l as nat, x as nat) == settle(level as nat, xp as nat),
        decreases x, if l == 0 {
            1int
        } else {
            0int
        },
    {
        let wide: u128 = l as u128;
        proof {
            assert(wide * wide <= 0xffff_ffff_ffff_ffff_ffff_ffff) by (nonlinear_arith)
                requires
                    wide <= 0xffff_ffff,
            ;
        }
        let needed: u128 = 10 * (wide * wide);
        assert(needed == xp_needed(l as nat)) by (nonlinear_arith)
            requires
                needed == 10 * (wide * wide),
                wide == l,
        ;
        if needed > 0xffff_ffff {
            return None;
        }
        if (x as u128) < needed {
            return Some((l, x as u32));
        }
        if l == 0xffff_ffff {
            return None;
        }
        if l == 0 {
            l = 1;
        } else {
            proof {
                lemma_xp_needed_positive(l as nat);
            }
            x = x - needed as u64;
            l = l + 1;
        }
    }
}


#[derive(Debug, Clone, Copy, PartialEq, Eq, Structural)]
pub enum Potion {
    Healing { power: i32 },
    Purity,
    Lifesteal,
}

pub open spec fn potion_name(p: Potion) -> Seq<char> {
    match p {
        Potion::Healing { .. } => "Healing Potion"@,
        Potion::Purity => "Purity Potion"@,
        Potion::Lifesteal => "Lifesteal Potion"@,
    }
}

pub open spec fn potion_price(p: Potion) -> u64 {
    match p {
        Potion::Healing { .. } => 30,
        Potion::Purity => 50,
        Potion::Lifesteal => 40,
    }
}

impl Potion {
    pub fn name(&self) -> (r: &'static str)
        ensures
            r@ == potion_name(*self),
    {
        match self {
            Potion::Healing { .. } => "Healing Potion",
            Potion::Purity => "Purity Potion",
            Potion::Lifesteal => "Lifesteal Potion",
        }
    }

    pub fn buy_cost(&self) -> (r: u64)
        ensures
            r == potion_price(*self),
    {
        match self {
            Potion::Healing { .. } => 30,
            Potion::Purity => 50,
            Potion::Lifesteal => 40,
        }
    }
}

/// Levelling up keeps the total experience earned: what the book had
/// earned before plus the new experience is what it has earned after; the
/// level never drops, and what is left is short of the next level.
pub proof fn law_add_xp_keeps_total(level: nat, xp: nat)
    requires
        level >= 1,
    ensures
        settle(level, xp).0 >= level,
        xp_before(settle(level, xp).0) + settle(level, xp).1 == xp_before(level) + xp,
        settle(level, xp).1 < xp_needed(settle(level, xp).0),
    decreases xp,
{
    lemma_xp_needed_positive(level);
    if xp >= xp_needed(level) {
        law_add_xp_keeps_total(level + 1, (xp - xp_needed(level)) as nat);
    }
}

} // verus!
