//! Dice rolls: what is rolled, what a roll can come to, and the rolling.

use rand::Rng;
use vstd::prelude::*;

verus! {

/// A number of dice with equally many faces each, a flat bonus added to
/// their sum, and the advantage the roll is made with: a positive number of
/// extra rolls of which the best counts, or a negative number of which the
/// worst counts.
#[derive(PartialEq, Eq, Structural, Debug, Clone, Copy)]
pub struct DiceRoll {
    pub faces: i32,
    pub dice: i32,
    pub bonus: i32,
    pub advantage: i32,
}

/// Why a roll cannot be made.
#[derive(PartialEq, Eq, Structural, Debug, Clone, Copy)]
pub enum DiceEvalError {
    /// Dice are asked for, and they have no faces.
    InvalidSpec,
}

/// How a roll is made.
#[derive(PartialEq, Eq, Structural, Debug, Clone, Copy)]
pub enum RollMode {
    /// The dice once, and the bonus.
    Normal,
    /// Twice the dice, and the bonus once.
    Critical,
    /// The best of one roll and this many more.
    Advantage(u32),
    /// The worst of one roll and this many more.
    Disadvantage(u32),
}

/// The sum of `values`.
pub open spec fn sum(values: Seq<i32>) -> int
    decreases values.len(),
{
    if values.len() == 0 {
        0
    } else {
        sum(values.drop_last()) + values.last()
    }
}

/// `shown` is what `count` dice of `faces` faces can show: each of them a
/// number from 1 to `faces`.
pub open spec fn is_throw(shown: Seq<i32>, count: int, faces: int) -> bool {
    &&& shown.len() == count
    &&& forall|i: int| 0 <= i < shown.len() ==> 1 <= #[trigger] shown[i] <= faces
}

/// `total` is what `count` dice of `faces` faces and `bonus` can come to.
pub open spec fn is_total(total: int, count: int, faces: int, bonus: int) -> bool {
    exists|shown: Seq<i32>| #[trigger] is_throw(shown, count, faces) && total == bonus + sum(shown)
}

/// `best` is one of `totals`, and none of them is higher.
pub open spec fn is_highest(best: i32, totals: Seq<i32>) -> bool {
    &&& totals.contains(best)
    &&& forall|i: int| 0 <= i < totals.len() ==> #[trigger] totals[i] <= best
}

/// `worst` is one of `totals`, and none of them is lower.
pub open spec fn is_lowest(worst: i32, totals: Seq<i32>) -> bool {
    &&& totals.contains(worst)
    &&& forall|i: int| 0 <= i < totals.len() ==> worst <= #[trigger] totals[i]
}

/// What `count` dice of `faces` faces show lies between one and `faces` for
/// each of them, taken together.
pub proof fn lemma_sum_of_throw(shown: Seq<i32>, count: int, faces: int)
    requires
        is_throw(shown, count, faces),
    ensures
        count <= sum(shown) <= count * faces,
    decreases shown.len(),
{
    if shown.len() == 0 {
        assert(count * faces == 0) by (nonlinear_arith)
            requires
                count == 0,
        ;
    } else {
        assert(is_throw(shown.drop_last(), count - 1, faces));
        lemma_sum_of_throw(shown.drop_last(), count - 1, faces);
        assert((count - 1) * faces + faces == count * faces) by (nonlinear_arith);
    }
}

/// Every total of `count` dice of `faces` faces with `bonus` lies between
/// `count` plus `bonus` and `count` times `faces` plus `bonus`.
pub proof fn lemma_total_in_range(total: int, count: int, faces: int, bonus: int)
    requires
        is_total(total, count, faces, bonus),
    ensures
        count + bonus <= total <= count * faces + bonus,
{
    let shown = choose|shown: Seq<i32>| #[trigger]
        is_throw(shown, count, faces) && total == bonus + sum(shown);
    lemma_sum_of_throw(shown, count, faces);
}

/// Without dice the total is the bonus, whatever the faces.
pub proof fn lemma_total_without_dice(total: int, faces: int, bonus: int)
    requires
        is_total(total, 0, faces, bonus),
    ensures
        total == bonus,
{
    let shown = choose|shown: Seq<i32>| #[trigger]
        is_throw(shown, 0, faces) && total == bonus + sum(shown);
    assert(sum(shown) == 0);
}

/// A number from `low` to `high`, both included, by chance. This is
/// `gen_range` of the crate rand, on the generator that `thread_rng` gives
/// for the current thread and on the range `low..=high`: whichever number
/// comes, it lies in that range. An empty range, for which `gen_range`
/// panics, is left out.
#[verifier::external_body]
fn random_between(low: i32, high: i32) -> (r: i32)
    requires
        low <= high,
    ensures
        low <= r <= high,
{
    rand::thread_rng().gen_range(low..=high)
}

/// Throws `count` dice of `faces` faces.
fn throw(count: i64, faces: i32) -> (shown: Vec<i32>)
    requires
        0 <= count,
        1 <= faces,
    ensures
        is_throw(shown@, count as int, faces as int),
{
    let mut shown: Vec<i32> = Vec::new();
    let mut i: i64 = 0;
    while i < count
        invariant
            0 <= i <= count,
            1 <= faces,
            is_throw(shown@, i as int, faces as int),
        decreases count - i,
    {
        let face = random_between(1, faces);
        shown.push(face);
        i += 1;
    }
    shown
}

/// The sum of what the dice show, and the bonus.
pub fn total(shown: &Vec<i32>, bonus: i32) -> (r: i32)
    requires
        i32::MIN <= bonus + sum(shown@) <= i32::MAX,
    ensures
        r == bonus + sum(shown@),
{
    let mut acc: i128 = bonus as i128;
    let mut i: usize = 0;
    while i < shown.len()
        invariant
            i <= shown.len(),
            acc == bonus + sum(shown@.take(i as int)),
            -2147483648 * (i + 1) <= acc <= 2147483648 * (i + 1),
        decreases shown.len() - i,
    {
        proof {
            assert(shown@.take(i + 1).drop_last() == shown@.take(i as int));
        }
        acc = acc + shown[i] as i128;
        i += 1;
    }
    proof {
        assert(shown@.take(shown.len() as int) == shown@);
    }
    acc as i32
}

/// The highest of `totals`, if there is any.
pub fn highest(totals: &Vec<i32>) -> (r: Option<i32>)
    ensures
        match r {
            Some(best) => is_highest(best, totals@),
            None => totals@.len() == 0,
        },
{
    if totals.len() == 0 {
        return None;
    }
    let mut best: i32 = totals[0];
    let mut i: usize = 1;
    while i < totals.len()
        invariant
            1 <= i <= totals.len(),
            exists|k: int| 0 <= k < i && totals@[k] == best,
            forall|k: int| 0 <= k < i ==> #[trigger] totals@[k] <= best,
        decreases totals.len() - i,
    {
        if totals[i] > best {
            best = totals[i];
        }
        i += 1;
    }
    Some(best)
}

/// The lowest of `totals`, if there is any.
pub fn lowest(totals: &Vec<i32>) -> (r: Option<i32>)
    ensures
        match r {
            Some(worst) => is_lowest(worst, totals@),
            None => totals@.len() == 0,
        },
{
    if totals.len() == 0 {
        return None;
    }
    let mut worst: i32 = totals[0];
    let mut i: usize = 1;
    while i < totals.len()
        invariant
            1 <= i <= totals.len(),
            exists|k: int| 0 <= k < i && totals@[k] == worst,
            forall|k: int| 0 <= k < i ==> worst <= #[trigger] totals@[k],
        decreases totals.len() - i,
    {
        if totals[i] < worst {
            worst = totals[i];
        }
        i += 1;
    }
    Some(worst)
}

/// Throws `count` dice of `faces` faces and adds the bonus.
fn roll_pool(count: i64, faces: i32, bonus: i32) -> (r: i32)
    requires
        0 <= count,
        1 <= faces,
        bonus + count * faces <= i32::MAX,
    ensures
        is_total(r as int, count as int, faces as int, bonus as int),
        count + bonus <= r <= count * faces + bonus,
{
    let shown = throw(count, faces);
    proof {
        lemma_sum_of_throw(shown@, count as int, faces as int);
    }
    total(&shown, bonus)
}

/// Rolls `dice_count` dice of `face_count` faces and adds `bonus`.
///
/// Without dice the result is the bonus. Dice without faces cannot be
/// rolled. Otherwise every die shows a number from 1 to `face_count`, and
/// the result is their sum and the bonus. The highest total must fit the
/// result.
pub fn roll(dice_count: i32, face_count: i32, bonus: i32) -> (r: Result<i32, DiceEvalError>)
    requires
        dice_count > 0 && face_count > 0 ==> bonus + dice_count * face_count <= i32::MAX,
    ensures
        dice_count <= 0 ==> r == Ok::<i32, DiceEvalError>(bonus),
        dice_count > 0 && face_count <= 0 ==> r == Err::<i32, DiceEvalError>(
            DiceEvalError::InvalidSpec,
        ),
        dice_count > 0 && face_count > 0 ==> r is Ok && is_total(
            r->Ok_0 as int,
            dice_count as int,
            face_count as int,
            bonus as int,
        ) && dice_count + bonus <= r->Ok_0 <= dice_count * face_count + bonus,
{
    if dice_count <= 0 {
        Ok(bonus)
    } else if face_count <= 0 {
        Err(DiceEvalError::InvalidSpec)
    } else {
        Ok(roll_pool(dice_count as i64, face_count, bonus))
    }
}

/// The mode that a signed advantage stands for: a positive one for as many
/// extra rolls with advantage, a negative one for as many with disadvantage.
pub open spec fn mode_of(advantage: i32) -> RollMode {
    if advantage > 0 {
        RollMode::Advantage(advantage as u32)
    } else if advantage < 0 {
        RollMode::Disadvantage((-advantage) as u32)
    } else {
        RollMode::Normal
    }
}

impl Default for DiceRoll {
    /// No dice, no bonus, no advantage.
    fn default() -> (r: Self)
        ensures
            r == (DiceRoll { faces: 0, dice: 0, bonus: 0, advantage: 0 }),
    {
        DiceRoll { faces: 0, dice: 0, bonus: 0, advantage: 0 }
    }
}

impl DiceRoll {
    /// A roll can be made unless it asks for dice that have no faces.
    pub open spec fn is_valid(&self) -> bool {
        self.dice > 0 ==> self.faces > 0
    }

    /// How many dice are thrown for one total in `mode`.
    pub open spec fn pool(&self, mode: RollMode) -> int {
        if self.dice <= 0 {
            0
        } else if mode == RollMode::Critical {
            2 * self.dice
        } else {
            self.dice as int
        }
    }

    /// How many totals are rolled in `mode`, of which one counts.
    pub open spec fn tries(mode: RollMode) -> int {
        match mode {
            RollMode::Advantage(n) => n + 1,
            RollMode::Disadvantage(n) => n + 1,
            _ => 1,
        }
    }

    /// The highest total in `mode` fits the result.
    pub open spec fn fits(&self, mode: RollMode) -> bool {
        self.dice > 0 && self.faces > 0 ==> self.bonus + self.pool(mode) * self.faces <= i32::MAX
    }

    /// `totals` are as many totals as `mode` asks for, each of them the
    /// bonus and the sum of what the dice of the pool show, and `result` is
    /// the one of them that counts: the lowest with disadvantage, else the
    /// highest.
    pub open spec fn counts_among(&self, mode: RollMode, result: i32, totals: Seq<i32>) -> bool {
        &&& totals.len() == Self::tries(mode)
        &&& forall|k: int|
            0 <= k < totals.len() ==> is_total(
                #[trigger] totals[k] as int,
                self.pool(mode),
                self.faces as int,
                self.bonus as int,
            )
        &&& if mode is Disadvantage {
            is_lowest(result, totals)
        } else {
            is_highest(result, totals)
        }
    }

    /// `result` is what this roll can come to in `mode`.
    pub open spec fn is_outcome(&self, mode: RollMode, result: i32) -> bool {
        exists|totals: Seq<i32>| self.counts_among(mode, result, totals)
    }

    /// Whether the highest total in `mode` fits the result, so that the roll
    /// can be made in that mode.
    pub fn can_roll(&self, mode: RollMode) -> (r: bool)
        ensures
            r == self.fits(mode),
    {
        if self.dice > 0 && self.faces > 0 {
            let pool: i64 = match mode {
                RollMode::Critical => 2 * (self.dice as i64),
                _ => self.dice as i64,
            };
            assert(0 <= pool * self.faces <= 4294967294 * 2147483647) by (nonlinear_arith)
                requires
                    0 <= pool <= 4294967294,
                    0 < self.faces <= 2147483647,
            ;
            self.bonus as i128 + (pool as i128) * (self.faces as i128) <= 2147483647
        } else {
            true
        }
    }

    /// With no extra rolls, advantage and disadvantage come to what a
    /// normal roll comes to.
    pub proof fn lemma_no_extra_rolls(&self, result: i32)
        ensures
            self.is_outcome(RollMode::Advantage(0), result) <==> self.is_outcome(
                RollMode::Normal,
                result,
            ),
            self.is_outcome(RollMode::Disadvantage(0), result) <==> self.is_outcome(
                RollMode::Normal,
                result,
            ),
    {
        if self.is_outcome(RollMode::Advantage(0), result) {
            let totals = choose|totals: Seq<i32>|
                self.counts_among(RollMode::Advantage(0), result, totals);
            assert(self.counts_among(RollMode::Normal, result, totals));
        }
        if self.is_outcome(RollMode::Disadvantage(0), result) {
            let totals = choose|totals: Seq<i32>|
                self.counts_among(RollMode::Disadvantage(0), result, totals);
            assert(totals[0] == result);
            assert(self.counts_among(RollMode::Normal, result, totals));
        }
        if self.is_outcome(RollMode::Normal, result) {
            let totals = choose|totals: Seq<i32>|
                self.counts_among(RollMode::Normal, result, totals);
            assert(totals[0] == result);
            assert(self.counts_among(RollMode::Advantage(0), result, totals));
            assert(self.counts_among(RollMode::Disadvantage(0), result, totals));
        }
    }

    /// Whatever a roll comes to lies within the bounds of its pool: at
    /// least one for each die, at most the faces for each, and the bonus.
    pub proof fn lemma_outcome_in_range(&self, mode: RollMode, result: i32)
        requires
            self.is_outcome(mode, result),
        ensures
            self.pool(mode) + self.bonus <= result <= self.pool(mode) * self.faces + self.bonus,
            self.dice <= 0 ==> result == self.bonus,
    {
        let totals = choose|totals: Seq<i32>| self.counts_among(mode, result, totals);
        let k = choose|k: int| 0 <= k < totals.len() && totals[k] == result;
        lemma_total_in_range(
            totals[k] as int,
            self.pool(mode),
            self.faces as int,
            self.bonus as int,
        );
        if self.dice <= 0 {
            lemma_total_without_dice(totals[k] as int, self.faces as int, self.bonus as int);
        }
    }

    /// The same roll, made with the advantage `amt`.
    pub fn with_advantage(&self, amt: i32) -> (r: Self)
        ensures
            r == (DiceRoll { advantage: amt, ..*self }),
    {
        DiceRoll { faces: self.faces, dice: self.dice, bonus: self.bonus, advantage: amt }
    }

    /// The mode that the advantage of this roll stands for.
    pub fn mode(&self) -> (r: RollMode)
        ensures
            r == mode_of(self.advantage),
    {
        if self.advantage > 0 {
            RollMode::Advantage(self.advantage as u32)
        } else if self.advantage < 0 {
            RollMode::Disadvantage((-(self.advantage as i64)) as u32)
        } else {
            RollMode::Normal
        }
    }

    /// Makes the roll in `mode`.
    ///
    /// A roll of dice without faces cannot be made. A roll without dice is
    /// its bonus. Otherwise as many totals are rolled as the mode asks for,
    /// each from a pool of the dice, or of twice the dice for a critical
    /// roll, and the bonus once; with advantage the highest total is the
    /// result, with disadvantage the lowest.
    pub fn evaluate(&self, mode: RollMode) -> (r: Result<i32, DiceEvalError>)
        requires
            self.fits(mode),
        ensures
            !self.is_valid() <==> r == Err::<i32, DiceEvalError>(DiceEvalError::InvalidSpec),
            self.is_valid() ==> r is Ok && self.is_outcome(mode, r->Ok_0),
            self.dice <= 0 ==> r == Ok::<i32, DiceEvalError>(self.bonus),
            self.is_valid() ==> self.pool(mode) + self.bonus <= r->Ok_0 <= self.pool(mode)
                * self.faces + self.bonus,
    {
        if self.dice <= 0 {
            proof {
                self.lemma_outcome_without_dice(mode);
            }
            return Ok(self.bonus);
        }
        if self.faces <= 0 {
            return Err(DiceEvalError::InvalidSpec);
        }
        let count: i64 = match mode {
            RollMode::Critical => 2 * (self.dice as i64),
            _ => self.dice as i64,
        };
        let tries: u64 = match mode {
            RollMode::Advantage(n) => n as u64 + 1,
            RollMode::Disadvantage(n) => n as u64 + 1,
            _ => 1,
        };
        let mut totals: Vec<i32> = Vec::new();
        let mut k: u64 = 0;
        while k < tries
            invariant
                0 <= k <= tries,
                1 <= self.faces,
                count == self.pool(mode),
                0 <= count,
                self.bonus + count * self.faces <= i32::MAX,
                totals@.len() == k,
                forall|j: int|
                    0 <= j < totals@.len() ==> is_total(
                        #[trigger] totals@[j] as int,
                        count as int,
                        self.faces as int,
                        self.bonus as int,
                    ),
            decreases tries - k,
        {
            let one = roll_pool(count, self.faces, self.bonus);
            totals.push(one);
            k += 1;
        }
        let result = match mode {
            RollMode::Disadvantage(_) => lowest(&totals),
            _ => highest(&totals),
        };
        match result {
            Some(result) => {
                proof {
                    assert(self.counts_among(mode, result, totals@));
                    self.lemma_outcome_in_range(mode, result);
                }
                Ok(result)
            },
            None => Ok(self.bonus),
        }
    }

    /// Without dice the bonus is what the roll comes to, in every mode.
    pub proof fn lemma_outcome_without_dice(&self, mode: RollMode)
        requires
            self.dice <= 0,
        ensures
            self.is_outcome(mode, self.bonus),
            self.pool(mode) * self.faces == 0,
    {
        let totals = Seq::new(Self::tries(mode) as nat, |k: int| self.bonus);
        assert forall|k: int| 0 <= k < totals.len() implies is_total(
            #[trigger] totals[k] as int,
            self.pool(mode),
            self.faces as int,
            self.bonus as int,
        ) by {
            let shown = Seq::<i32>::empty();
            assert(is_throw(shown, 0, self.faces as int) && self.bonus == self.bonus + sum(shown));
        }
        assert(totals[0] == self.bonus);
        assert(self.counts_among(mode, self.bonus, totals));
        assert(self.pool(mode) * self.faces == 0) by (nonlinear_arith)
            requires
                self.pool(mode) == 0,
        ;
    }

    /// Rolls the dice once and adds the bonus.
    pub fn roll(&self) -> (r: Result<i32, DiceEvalError>)
        requires
            self.fits(RollMode::Normal),
        ensures
            !self.is_valid() <==> r == Err::<i32, DiceEvalError>(DiceEvalError::InvalidSpec),
            self.dice <= 0 ==> r == Ok::<i32, DiceEvalError>(self.bonus),
            self.dice > 0 && self.faces > 0 ==> r is Ok && is_total(
                r->Ok_0 as int,
                self.dice as int,
                self.faces as int,
                self.bonus as int,
            ) && self.dice + self.bonus <= r->Ok_0 <= self.dice * self.faces + self.bonus,
    {
        self::roll(self.dice, self.faces, self.bonus)
    }

    /// Rolls twice the dice and adds the bonus once.
    pub fn roll_crit(&self) -> (r: Result<i32, DiceEvalError>)
        requires
            self.fits(RollMode::Critical),
        ensures
            !self.is_valid() <==> r == Err::<i32, DiceEvalError>(DiceEvalError::InvalidSpec),
            self.dice <= 0 ==> r == Ok::<i32, DiceEvalError>(self.bonus),
            self.dice > 0 && self.faces > 0 ==> r is Ok && is_total(
                r->Ok_0 as int,
                2 * self.dice,
                self.faces as int,
                self.bonus as int,
            ) && 2 * self.dice + self.bonus <= r->Ok_0 <= 2 * self.dice * self.faces + self.bonus,
    {
        if self.dice <= 0 {
            Ok(self.bonus)
        } else if self.faces <= 0 {
            Err(DiceEvalError::InvalidSpec)
        } else {
            Ok(roll_pool(2 * (self.dice as i64), self.faces, self.bonus))
        }
    }

    /// Rolls with the advantage that this roll is made with: the best of
    /// one roll and as many more as a positive advantage says, the worst
    /// of one roll and as many more as a negative one says.
    pub fn roll_advantage(&self, _advantage: i32) -> (r: Result<i32, DiceEvalError>)
        requires
            self.fits(RollMode::Normal),
        ensures
            !self.is_valid() <==> r == Err::<i32, DiceEvalError>(DiceEvalError::InvalidSpec),
            self.is_valid() ==> r is Ok && self.is_outcome(mode_of(self.advantage), r->Ok_0),
            self.dice <= 0 ==> r == Ok::<i32, DiceEvalError>(self.bonus),
            self.dice > 0 && self.faces > 0 ==> self.dice + self.bonus <= r->Ok_0 <= self.dice
                * self.faces + self.bonus,
    {
        self.evaluate(self.mode())
    }

    /// One die of twenty faces.
    pub fn d20() -> (r: Self)
        ensures
            r == (DiceRoll { faces: 20, dice: 1, bonus: 0, advantage: 0 }),
    {
        DiceRoll { faces: 20, dice: 1, bonus: 0, advantage: 0 }
    }

    /// One die of twenty faces and a bonus.
    pub fn d20_with_bonus(bonus: i32) -> (r: Self)
        ensures
            r == (DiceRoll { faces: 20, dice: 1, bonus: bonus, advantage: 0 }),
    {
        DiceRoll { faces: 20, dice: 1, bonus: bonus, advantage: 0 }
    }

    /// Dice, faces and bonus as given.
    pub fn all(dice_count: i32, face_count: i32, bonus: i32) -> (r: Self)
        ensures
            r == (DiceRoll { faces: face_count, dice: dice_count, bonus: bonus, advantage: 0 }),
    {
        DiceRoll { faces: face_count, dice: dice_count, bonus: bonus, advantage: 0 }
    }

    /// Dice without a bonus.
    pub fn dice_only(dice_count: i32, face_count: i32) -> (r: Self)
        ensures
            r == (DiceRoll { faces: face_count, dice: dice_count, bonus: 0, advantage: 0 }),
    {
        DiceRoll { faces: face_count, dice: dice_count, bonus: 0, advantage: 0 }
    }

    /// A bonus without dice.
    pub fn flat_number(amt: i32) -> (r: Self)
        ensures
            r == (DiceRoll { faces: 0, dice: 0, bonus: amt, advantage: 0 }),
    {
        DiceRoll { faces: 0, dice: 0, bonus: amt, advantage: 0 }
    }
}

} // verus!
