use vstd::prelude::*;
use crate::location::Species;
use crate::rng::thread_random_below;
use vstd::string::StringExecFns;

verus! {

/// The decimal digit character sequence of a single digit.
pub open spec fn spec_digit(d: nat) -> Seq<char> {
    if d == 0 {
        "0"@
    } else if d == 1 {
        "1"@
    } else if d == 2 {
        "2"@
    } else if d == 3 {
        "3"@
    } else if d == 4 {
        "4"@
    } else if d == 5 {
        "5"@
    } else if d == 6 {
        "6"@
    } else if d == 7 {
        "7"@
    } else if d == 8 {
        "8"@
    } else {
        "9"@
    }
}

/// The decimal digit string of a nonnegative number, most significant digit
/// first.
pub open spec fn spec_digits(n: nat) -> Seq<char>
    decreases n,
{
    if n < 10 {
        spec_digit(n)
    } else {
        spec_digits(n / 10) + spec_digit(n % 10)
    }
}

/// The decimal string of a signed number.
pub open spec fn spec_decimal(v: int) -> Seq<char> {
    if v < 0 {
        "-"@ + spec_digits((-v) as nat)
    } else {
        spec_digits(v as nat)
    }
}

/// The digit literal for one decimal digit.
fn digit_literal(d: u64) -> (r: &'static str)
    requires
        d < 10,
    ensures
        r@ == spec_digit(d as nat),
{
    match d {
        0 => "0",
        1 => "1",
        2 => "2",
        3 => "3",
        4 => "4",
        5 => "5",
        6 => "6",
        7 => "7",
        8 => "8",
        _ => "9",
    }
}

/// Append the decimal digits of `m` to `s`, most significant first.
fn append_digits(s: &mut String, m: u64)
    ensures
        final(s)@ == old(s)@ + spec_digits(m as nat),
    decreases m,
{
    if m >= 10 {
        proof {
            vstd::arithmetic::div_mod::lemma_div_is_strictly_smaller(m as int, 10);
        }
        append_digits(s, m / 10);
        s.append(digit_literal(m % 10));
        proof {
            assert(s@ =~= old(s)@ + spec_digits(m as nat));
        }
    } else {
        s.append(digit_literal(m));
    }
}

/// Append the decimal form of `v` to `s`.
fn append_decimal(s: &mut String, v: i32)
    ensures
        final(s)@ == old(s)@ + spec_decimal(v as int),
{
    if v < 0 {
        s.append("-");
        let m: u64 = (-(v as i64)) as u64;
        append_digits(s, m);
        proof {
            assert(s@ =~= old(s)@ + spec_decimal(v as int));
        }
    } else {
        append_digits(s, v as u64);
    }
}

/// Division truncating toward zero, as the executable `/` on signed
/// integers behaves.
pub open spec fn trunc_div(a: int, b: int) -> int {
    if a >= 0 {
        a / b
    } else {
        -((-a) / b)
    }
}

/// The one-line summary of a character's counters.
pub open spec fn spec_stats(c: Character) -> Seq<char> {
    c.class@ + " hp: "@ + spec_decimal(c.health as int) + " attack: "@ + spec_decimal(
        c.attack as int,
    ) + " dodge: "@ + spec_decimal(c.dodge as int) + " luck: "@ + spec_decimal(c.luck as int)
        + " xp: "@ + spec_decimal(c.xp as int)
}

/// A playable character: simple counters around a name, class and species.
pub struct Character {
    pub name: String,
    pub species: Species,
    pub class: String,
    pub health: i32,
    pub max_health: i32,
    pub attack: i32,
    pub dodge: i32,
    pub luck: i32,
    pub xp: i32,
}

/// The ranges a randomly rolled character's counters fall in.
pub open spec fn random_character_ok(c: Character) -> bool {
    &&& c.name@ == "Player"@
    &&& c.species == Species::Human
    &&& (c.class@ == "Warrior"@ || c.class@ == "Mage"@ || c.class@ == "Rogue"@ || c.class@
        == "Cleric"@)
    &&& 80 <= c.health < 120
    &&& c.max_health == c.health
    &&& 8 <= c.attack < 12
    &&& 8 <= c.dodge < 12
    &&& 1 <= c.luck < 10
    &&& c.xp == 0
}

impl Character {
    pub fn new(
        name: String,
        class: String,
        species: Species,
        health: i32,
        max_health: i32,
        attack: i32,
        dodge: i32,
        luck: i32,
    ) -> (c: Character)
        ensures
            c.name@ == name@,
            c.class@ == class@,
            c.species == species,
            c.health == health,
            c.max_health == max_health,
            c.attack == attack,
            c.dodge == dodge,
            c.luck == luck,
            c.xp == 0,
    {
        Character { name, species, class, health, max_health, attack, dodge, luck, xp: 0 }
    }

    /// The standard human adventurer.
    pub fn create_human(name: String) -> (c: Character)
        ensures
            c.name@ == name@,
            c.class@ == "Adventurer"@,
            c.species == Species::Human,
            c.health == 100,
            c.max_health == 100,
            c.attack == 10,
            c.dodge == 10,
            c.luck == 5,
            c.xp == 0,
    {
        Character::new(name, "Adventurer".to_owned(), Species::Human, 100, 100, 10, 10, 5)
    }

    /// A character with randomly rolled class and counters; only the stated
    /// ranges are promised of the rolls.
    pub fn create_random() -> (c: Character)
        ensures
            random_character_ok(c),
    {
        let class: &'static str = match thread_random_below(4) {
            0 => "Warrior",
            1 => "Mage",
            2 => "Rogue",
            _ => "Cleric",
        };
        let health: i32 = 80 + thread_random_below(40) as i32;
        let attack: i32 = 8 + thread_random_below(4) as i32;
        let dodge: i32 = 8 + thread_random_below(4) as i32;
        let luck: i32 = 1 + thread_random_below(9) as i32;
        Character::new(
            "Player".to_owned(),
            class.to_owned(),
            Species::Human,
            health,
            health,
            attack,
            dodge,
            luck,
        )
    }

    /// The one-line summary of the character's counters.
    pub fn stats(&self) -> (r: String)
        ensures
            r@ == spec_stats(*self),
    {
        let mut s: String = self.class.clone();
        s.append(" hp: ");
        append_decimal(&mut s, self.health);
        s.append(" attack: ");
        append_decimal(&mut s, self.attack);
        s.append(" dodge: ");
        append_decimal(&mut s, self.dodge);
        s.append(" luck: ");
        append_decimal(&mut s, self.luck);
        s.append(" xp: ");
        append_decimal(&mut s, self.xp);
        proof {
            assert(s@ =~= spec_stats(*self));
        }
        s
    }

    /// Take a hit and learn from it.
    pub fn damage(&mut self, damage_amount: i32)
        requires
            i32::MIN <= old(self).health - damage_amount <= i32::MAX,
            old(self).xp + 2 <= i32::MAX,
        ensures
            final(self).health == old(self).health - damage_amount,
            final(self).xp == old(self).xp + 2,
            final(self).name == old(self).name,
            final(self).species == old(self).species,
            final(self).class == old(self).class,
            final(self).max_health == old(self).max_health,
            final(self).attack == old(self).attack,
            final(self).dodge == old(self).dodge,
            final(self).luck == old(self).luck,
    {
        self.health = self.health - damage_amount;
        self.xp = self.xp + 2;
    }

    /// Recover health and learn a little.
    pub fn heal(&mut self, heal_amount: i32)
        requires
            i32::MIN <= old(self).health + heal_amount <= i32::MAX,
            old(self).xp + 1 <= i32::MAX,
        ensures
            final(self).health == old(self).health + heal_amount,
            final(self).xp == old(self).xp + 1,
            final(self).name == old(self).name,
            final(self).species == old(self).species,
            final(self).class == old(self).class,
            final(self).max_health == old(self).max_health,
            final(self).attack == old(self).attack,
            final(self).dodge == old(self).dodge,
            final(self).luck == old(self).luck,
    {
        self.health = self.health + heal_amount;
        self.xp = self.xp + 1;
    }

    /// The effective attack value: base attack plus halved luck plus a tenth
    /// of the experience, with the halving and tenth truncating toward zero.
    pub fn attack(&self) -> (r: i32)
        requires
            i32::MIN <= self.attack + trunc_div(self.luck as int, 2) <= i32::MAX,
            i32::MIN <= self.attack + trunc_div(self.luck as int, 2) + trunc_div(
                self.xp as int,
                10,
            ) <= i32::MAX,
        ensures
            r == self.attack + trunc_div(self.luck as int, 2) + trunc_div(self.xp as int, 10),
    {
        self.attack + self.luck / 2 + self.xp / 10
    }

    /// The effective dodge value, shaped like the attack value.
    pub fn dodge(&self) -> (r: i32)
        requires
            i32::MIN <= self.dodge + trunc_div(self.luck as int, 2) <= i32::MAX,
            i32::MIN <= self.dodge + trunc_div(self.luck as int, 2) + trunc_div(
                self.xp as int,
                10,
            ) <= i32::MAX,
        ensures
            r == self.dodge + trunc_div(self.luck as int, 2) + trunc_div(self.xp as int, 10),
    {
        self.dodge + self.luck / 2 + self.xp / 10
    }
}

} // verus!
