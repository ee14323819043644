//! Characters and their health.
//!
//! Healing raises the health of a character up to the most it can have, and
//! steadies one that is dying. Hurting lowers it, below zero too: a
//! character below zero is dying, and one below twice the most it can have,
//! taken below zero, is dead. The dead and the undead stay what they are.

pub mod stat;

use stat::StatBlock;
use vstd::prelude::*;
use vstd::string::StringExecFns;

verus! {

/// The state of a character's life, from the lightest to the gravest.
#[derive(PartialEq, Eq, Structural, PartialOrd, Ord, Clone, Copy, Debug)]
pub enum CharState {
    Alive,
    /// Down, but stable.
    Incapacitated,
    DeathSave,
    Dead,
    Undead,
}

/// How grave a state is.
pub open spec fn severity_of(state: CharState) -> int {
    match state {
        CharState::Alive => 0,
        CharState::Incapacitated => 1,
        CharState::DeathSave => 2,
        CharState::Dead => 3,
        CharState::Undead => 4,
    }
}

/// The health after healing by `amt`: as much more, but no more than `max_hp`.
pub open spec fn healed_hp(hp: int, max_hp: int, amt: int) -> int {
    if hp + amt <= max_hp {
        hp + amt
    } else {
        max_hp
    }
}

/// The state after healing by `amt`: a dying character that is healed at all
/// is steadied, and nothing else changes.
pub open spec fn healed_state(state: CharState, amt: int) -> CharState {
    if state == CharState::DeathSave && amt > 0 {
        CharState::Incapacitated
    } else {
        state
    }
}

/// The state after hurting, when the health has come down to `hp`.
pub open spec fn hurt_state(state: CharState, hp: int, max_hp: int) -> CharState {
    if state == CharState::Dead || state == CharState::Undead {
        state
    } else if hp >= 0 {
        state
    } else if hp >= -2 * max_hp {
        CharState::DeathSave
    } else {
        CharState::Dead
    }
}

/// Neither healing nor hurting brings the dead or the undead to another
/// state.
pub proof fn lemma_dead_and_undead_stay(state: CharState, amt: int, hp: int, max_hp: int)
    requires
        state == CharState::Dead || state == CharState::Undead,
    ensures
        healed_state(state, amt) == state,
        hurt_state(state, hp, max_hp) == state,
{
}

/// Hurting brings a character to no state but the one it is in, dying, or
/// dead; healing lowers no health that is within the most the character can
/// have, and does not raise it above that.
pub proof fn lemma_states_reached(state: CharState, amt: int, hp: int, max_hp: int)
    requires
        amt >= 0,
    ensures
        hurt_state(state, hp - amt, max_hp) == state || hurt_state(state, hp - amt, max_hp)
            == CharState::DeathSave || hurt_state(state, hp - amt, max_hp) == CharState::Dead,
        hp <= max_hp ==> hp <= healed_hp(hp, max_hp, amt) <= max_hp,
{
}

impl CharState {
    /// How grave the state is, from 0 for `Alive` to 4 for `Undead`.
    pub fn severity(&self) -> (r: u8)
        ensures
            r == severity_of(*self),
    {
        match self {
            CharState::Alive => 0,
            CharState::Incapacitated => 1,
            CharState::DeathSave => 2,
            CharState::Dead => 3,
            CharState::Undead => 4,
        }
    }
}

/// A character at the table.
pub struct Character {
    pub name: String,
    pub state: CharState,
    pub stat_block: StatBlock,
}

impl Character {
    /// The character is Hudson as he starts out.
    pub open spec fn is_hudson(&self) -> bool {
        &&& self.name@ == "Hudson"@
        &&& self.state == CharState::Alive
        &&& self.stat_block.is_default()
    }

    /// The character after healing by `amt`.
    pub open spec fn healed_by(self, amt: int) -> Character {
        Character {
            state: healed_state(self.state, amt),
            stat_block: StatBlock {
                hp: healed_hp(self.stat_block.hp as int, self.stat_block.max_hp as int, amt) as i32,
                ..self.stat_block
            },
            ..self
        }
    }

    /// The character after hurting by `amt`.
    pub open spec fn hurt_by(self, amt: int) -> Character {
        Character {
            state: hurt_state(
                self.state,
                self.stat_block.hp - amt,
                self.stat_block.max_hp as int,
            ),
            stat_block: StatBlock { hp: (self.stat_block.hp - amt) as i32, ..self.stat_block },
            ..self
        }
    }

    /// Heals the character by `amt`, which is not negative: the health
    /// rises by `amt`, but not above the most the character can have, and
    /// a dying character that is healed at all becomes stable.
    pub fn heal(&mut self, amt: i32)
        requires
            amt >= 0,
        ensures
            *final(self) == old(self).healed_by(amt as int),
    {
        let sum: i64 = self.stat_block.hp as i64 + amt as i64;
        if sum <= self.stat_block.max_hp as i64 {
            self.stat_block.hp = sum as i32;
        } else {
            self.stat_block.hp = self.stat_block.max_hp;
        }
        if amt > 0 && self.state == CharState::DeathSave {
            self.state = CharState::Incapacitated;
        }
    }

    /// Hurts the character by `amt`, which is not negative: the health
    /// falls by `amt`, below zero too, but not below what the numbers can
    /// hold. A character whose health is then below zero is dying, and dead
    /// where it is below twice the most it can have, taken below zero. The
    /// dead and the undead stay what they are.
    pub fn hurt(&mut self, amt: i32)
        requires
            amt >= 0,
            old(self).stat_block.hp - amt >= i32::MIN,
        ensures
            *final(self) == old(self).hurt_by(amt as int),
    {
        self.stat_block.hp = self.stat_block.hp - amt;
        if self.state != CharState::Dead && self.state != CharState::Undead
            && self.stat_block.hp < 0 {
            if (self.stat_block.hp as i64) < -2 * (self.stat_block.max_hp as i64) {
                self.state = CharState::Dead;
            } else {
                self.state = CharState::DeathSave;
            }
        }
    }

    /// Takes a reading of `amt` health, which is not negative, as that much
    /// healing.
    pub fn set_health(&mut self, amt: i32)
        requires
            amt >= 0,
        ensures
            *final(self) == old(self).healed_by(amt as int),
    {
        self.heal(amt);
    }

    /// The numbers of the character.
    pub fn get_stat_block(&self) -> (r: &StatBlock)
        ensures
            *r == self.stat_block,
    {
        &self.stat_block
    }

    /// Hudson: alive, with the numbers of an ordinary character.
    pub fn make_hudson() -> (r: Self)
        ensures
            r.is_hudson(),
    {
        Character {
            name: String::from_str("Hudson"),
            state: CharState::Alive,
            stat_block: StatBlock::new_default(),
        }
    }
}

} // verus!
