//! Ability scores, skills, and the block of numbers that a character has.

pub mod stat_names;

use crate::roll::DiceRoll;
use vstd::prelude::*;

verus! {

/// Something of a character that has a score and gives a bonus.
pub trait Stat {
    /// The score that `stat_block` has for this.
    spec fn score(&self, stat_block: &StatBlock) -> int;

    /// The bonus that `stat_block` gives for this.
    spec fn bonus(&self, stat_block: &StatBlock) -> int;

    fn get_bonus(&self, stat_block: &StatBlock) -> (r: i32)
        requires
            i32::MIN <= self.bonus(stat_block) <= i32::MAX,
        ensures
            r == self.bonus(stat_block),
    ;

    fn get_score(&self, stat_block: &StatBlock) -> (r: i32)
        ensures
            r == self.score(stat_block),
    ;
}

/// The bonus that a score gives: five below the score.
pub open spec fn bonus_of_score(score: int) -> int {
    score - 5
}

/// The bonus that a score gives.
pub fn score_to_bonus(score: i32) -> (r: i32)
    requires
        i32::MIN <= bonus_of_score(score as int),
    ensures
        r == bonus_of_score(score as int),
{
    score - 5
}

/// The six ability scores.
#[derive(Hash, PartialEq, Eq, Structural, PartialOrd, Ord, Clone, Copy, Debug)]
pub enum ScoreEnum {
    Strength,
    Dexterity,
    Constitution,
    Intelligence,
    Wisdom,
    Charisma,
}

/// The skills.
#[derive(Hash, PartialEq, Eq, Structural, PartialOrd, Ord, Clone, Copy, Debug)]
pub enum SkillEnum {
    AnimalHandling,
    Acrobatics,
    Arcana,
    Athletics,
    Deception,
    History,
    Insight,
    Intimidation,
    Investigation,
    Medicine,
    Nature,
    Perception,
    Performance,
    Persuasion,
    Religion,
    SleightOfHand,
    Stealth,
    Survival,
}

/// An ability score or a skill.
#[derive(PartialEq, Eq, Structural, Clone, Copy, Debug)]
pub enum StatEnum {
    ScoreType(ScoreEnum),
    SkillType(SkillEnum),
}

/// The numbers of a character.
pub struct StatBlock {
    pub level: i32,
    pub str: i32,
    pub dex: i32,
    pub con: i32,
    pub int: i32,
    pub chr: i32,
    pub wis: i32,
    pub proficiency_bonus: i32,
    /// The skills that the character is proficient in.
    pub proficient: Vec<SkillEnum>,
    pub hp: i32,
    pub max_hp: i32,
    pub temp_hp: i32,
    pub armor_class: i32,
    pub speed: i32,
}

/// The ability score that a skill rests on.
pub open spec fn base_of(skill: SkillEnum) -> ScoreEnum {
    match skill {
        SkillEnum::AnimalHandling
        | SkillEnum::Insight
        | SkillEnum::Medicine
        | SkillEnum::Perception
        | SkillEnum::Survival => ScoreEnum::Wisdom,
        SkillEnum::Acrobatics | SkillEnum::SleightOfHand | SkillEnum::Stealth => ScoreEnum::Dexterity,
        SkillEnum::Arcana
        | SkillEnum::History
        | SkillEnum::Investigation
        | SkillEnum::Nature
        | SkillEnum::Religion => ScoreEnum::Intelligence,
        SkillEnum::Athletics => ScoreEnum::Strength,
        SkillEnum::Deception
        | SkillEnum::Intimidation
        | SkillEnum::Performance
        | SkillEnum::Persuasion => ScoreEnum::Charisma,
    }
}

/// The score that a block has for an ability.
pub open spec fn score_in(stat_block: &StatBlock, score: ScoreEnum) -> int {
    match score {
        ScoreEnum::Strength => stat_block.str as int,
        ScoreEnum::Dexterity => stat_block.dex as int,
        ScoreEnum::Constitution => stat_block.con as int,
        ScoreEnum::Intelligence => stat_block.int as int,
        ScoreEnum::Wisdom => stat_block.wis as int,
        ScoreEnum::Charisma => stat_block.chr as int,
    }
}

/// The bonus that a block gives for a skill: that of the ability the skill
/// rests on, and the proficiency bonus where the character is proficient.
pub open spec fn skill_bonus_in(stat_block: &StatBlock, skill: SkillEnum) -> int {
    bonus_of_score(score_in(stat_block, base_of(skill))) + if stat_block.proficient@.contains(
        skill,
    ) {
        stat_block.proficiency_bonus as int
    } else {
        0
    }
}

impl vstd::std_specs::convert::FromSpecImpl<ScoreEnum> for StatEnum {
    open spec fn obeys_from_spec() -> bool {
        true
    }

    open spec fn from_spec(v: ScoreEnum) -> Self {
        StatEnum::ScoreType(v)
    }
}

impl From<ScoreEnum> for StatEnum {
    fn from(v: ScoreEnum) -> (r: Self) {
        StatEnum::ScoreType(v)
    }
}

impl vstd::std_specs::convert::FromSpecImpl<SkillEnum> for StatEnum {
    open spec fn obeys_from_spec() -> bool {
        true
    }

    open spec fn from_spec(v: SkillEnum) -> Self {
        StatEnum::SkillType(v)
    }
}

impl From<SkillEnum> for StatEnum {
    fn from(v: SkillEnum) -> (r: Self) {
        StatEnum::SkillType(v)
    }
}

impl Stat for ScoreEnum {
    open spec fn score(&self, stat_block: &StatBlock) -> int {
        score_in(stat_block, *self)
    }

    open spec fn bonus(&self, stat_block: &StatBlock) -> int {
        bonus_of_score(score_in(stat_block, *self))
    }

    fn get_bonus(&self, stat_block: &StatBlock) -> (r: i32) {
        score_to_bonus(self.get_score(stat_block))
    }

    fn get_score(&self, stat_block: &StatBlock) -> (r: i32) {
        match self {
            Self::Strength => stat_block.str,
            Self::Dexterity => stat_block.dex,
            Self::Constitution => stat_block.con,
            Self::Intelligence => stat_block.int,
            Self::Wisdom => stat_block.wis,
            Self::Charisma => stat_block.chr,
        }
    }
}

impl SkillEnum {
    /// The ability score that the skill rests on.
    pub fn get_base_score(&self) -> (r: ScoreEnum)
        ensures
            r == base_of(*self),
    {
        match self {
            SkillEnum::AnimalHandling
            | SkillEnum::Insight
            | SkillEnum::Medicine
            | SkillEnum::Perception
            | SkillEnum::Survival => ScoreEnum::Wisdom,
            SkillEnum::Acrobatics
            | SkillEnum::SleightOfHand
            | SkillEnum::Stealth => ScoreEnum::Dexterity,
            SkillEnum::Arcana
            | SkillEnum::History
            | SkillEnum::Investigation
            | SkillEnum::Nature
            | SkillEnum::Religion => ScoreEnum::Intelligence,
            SkillEnum::Athletics => ScoreEnum::Strength,
            SkillEnum::Deception
            | SkillEnum::Intimidation
            | SkillEnum::Performance
            | SkillEnum::Persuasion => ScoreEnum::Charisma,
        }
    }
}

impl Stat for SkillEnum {
    open spec fn score(&self, stat_block: &StatBlock) -> int {
        score_in(stat_block, base_of(*self))
    }

    open spec fn bonus(&self, stat_block: &StatBlock) -> int {
        skill_bonus_in(stat_block, *self)
    }

    fn get_bonus(&self, stat_block: &StatBlock) -> (r: i32) {
        let base = self.get_base_score();
        let proficiency_bonus: i64 = if stat_block.is_proficient(*self) {
            stat_block.proficiency_bonus as i64
        } else {
            0
        };
        (base.get_score(stat_block) as i64 - 5 + proficiency_bonus) as i32
    }

    fn get_score(&self, stat_block: &StatBlock) -> (r: i32) {
        let base = self.get_base_score();
        base.get_score(stat_block)
    }
}

impl Stat for StatEnum {
    open spec fn score(&self, stat_block: &StatBlock) -> int {
        match *self {
            StatEnum::ScoreType(a) => a.score(stat_block),
            StatEnum::SkillType(a) => a.score(stat_block),
        }
    }

    open spec fn bonus(&self, stat_block: &StatBlock) -> int {
        match *self {
            StatEnum::ScoreType(a) => a.bonus(stat_block),
            StatEnum::SkillType(a) => a.bonus(stat_block),
        }
    }

    fn get_score(&self, stat_block: &StatBlock) -> (r: i32) {
        match self {
            Self::ScoreType(a) => a.get_score(stat_block),
            Self::SkillType(a) => a.get_score(stat_block),
        }
    }

    fn get_bonus(&self, stat_block: &StatBlock) -> (r: i32) {
        match self {
            Self::ScoreType(a) => a.get_bonus(stat_block),
            Self::SkillType(a) => a.get_bonus(stat_block),
        }
    }
}

impl StatBlock {
    /// The numbers are those of a character: the most health it can have is
    /// above zero.
    pub open spec fn wf(&self) -> bool {
        self.max_hp > 0
    }

    /// The numbers are those of an ordinary character of the fourth level.
    pub open spec fn is_default(&self) -> bool {
        &&& self.level == 4
        &&& self.str == 10
        &&& self.dex == 10
        &&& self.con == 10
        &&& self.int == 10
        &&& self.chr == 10
        &&& self.wis == 10
        &&& self.proficiency_bonus == 2
        &&& self.proficient@ == Seq::<SkillEnum>::empty()
        &&& self.hp == 25
        &&& self.max_hp == 30
        &&& self.temp_hp == 0
        &&& self.armor_class == 10
        &&& self.speed == 30
    }

    /// The numbers of an ordinary character of the fourth level.
    pub fn new_default() -> (r: Self)
        ensures
            r.is_default(),
            r.wf(),
    {
        StatBlock {
            level: 4,
            str: 10,
            dex: 10,
            con: 10,
            int: 10,
            chr: 10,
            wis: 10,
            proficiency_bonus: 2,
            proficient: Vec::new(),
            hp: 25,
            max_hp: 30,
            temp_hp: 0,
            speed: 30,
            armor_class: 10,
        }
    }

    /// Whether the character is proficient in `skill`.
    pub fn is_proficient(&self, skill: SkillEnum) -> (r: bool)
        ensures
            r == self.proficient@.contains(skill),
    {
        let mut i: usize = 0;
        while i < self.proficient.len()
            invariant
                i <= self.proficient.len(),
                forall|k: int| 0 <= k < i ==> self.proficient@[k] != skill,
            decreases self.proficient.len() - i,
        {
            if self.proficient[i] == skill {
                return true;
            }
            i += 1;
        }
        false
    }

    /// The score of `stat`.
    pub fn get_score(&self, stat: &dyn Stat) -> (r: i32)
        ensures
            r == stat.score(self),
    {
        stat.get_score(self)
    }

    /// The bonus of `stat`.
    pub fn get_bonus(&self, stat: &dyn Stat) -> (r: i32)
        requires
            i32::MIN <= stat.bonus(self) <= i32::MAX,
        ensures
            r == stat.bonus(self),
    {
        stat.get_bonus(self)
    }

    /// A check of `stat`: one die of twenty faces, and the bonus of `stat`.
    pub fn skill_check(&self, stat: &dyn Stat) -> (r: i32)
        requires
            i32::MIN <= stat.bonus(self),
            stat.bonus(self) + 20 <= i32::MAX,
        ensures
            1 + stat.bonus(self) <= r <= 20 + stat.bonus(self),
    {
        let bonus = stat.get_bonus(self);
        match DiceRoll::d20().roll() {
            Ok(die) => die + bonus,
            Err(_) => bonus,
        }
    }
}

} // verus!
