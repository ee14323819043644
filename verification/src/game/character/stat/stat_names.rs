//! The names that the numbers of a character go by.

use vstd::prelude::*;

verus! {

pub const STR: &'static str = "strength";

pub const DEX: &'static str = "dexterity";

pub const CON: &'static str = "constitution";

pub const INT: &'static str = "intelligence";

pub const CHR: &'static str = "charisma";

pub const WIS: &'static str = "wisdom";

pub const MAX_HEALTH: &'static str = "max health";

pub const HEALTH: &'static str = "health";

pub const TEMP_HEALTH: &'static str = "temporary hp";

pub const ARMOR_CLASS: &'static str = "armor class";

pub const ANIMAL_HANDLING: &'static str = "animal handling";

pub const ACROBATICS: &'static str = "acrobatics";

pub const ARCANA: &'static str = "arcana";

pub const ATHLETICS: &'static str = "athletics";

pub const DECEPTION: &'static str = "deception";

pub const HISTORY: &'static str = "history";

pub const INSIGHT: &'static str = "insight";

pub const INTIMIDATION: &'static str = "intimidation";

pub const INVESTIGATION: &'static str = "investigation";

pub const MEDICINE: &'static str = "medicine";

pub const NATURE: &'static str = "nature";

pub const PERCEPTION: &'static str = "perception";

pub const PERFORMANCE: &'static str = "performance";

pub const PERSUASION: &'static str = "persuasion";

pub const RELIGION: &'static str = "religion";

pub const SLEIGHT_OF_HAND: &'static str = "sleight of hand";

pub const STEALTH: &'static str = "stealth";

pub const SURVIVAL: &'static str = "survival";

} // verus!
