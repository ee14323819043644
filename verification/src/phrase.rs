//! The dice notation: phrases such as `2d8-5`, `d20` or `+3`.
//!
//! With whitespace left out, a phrase is either digits, the letter `d`,
//! digits, and then optionally a sign and digits; or a sign and digits alone.
//! Both runs of digits around the `d` may be empty, the run after a sign may
//! not.

use crate::roll::DiceRoll;
use crate::text::{
    all_digits, decimal, decimal_text, is_decimal_digit, is_digit, is_space, is_whitespace,
    lemma_decimal, lemma_numeral_grows, numeral, signed_decimal, signed_decimal_text,
};
use vstd::prelude::*;
use vstd::string::StringExecFns;

verus! {

/// Why a text is no dice phrase.
#[derive(PartialEq, Eq, Structural, Debug, Clone, Copy)]
pub enum DiceSyntaxError {
    /// The text holds nothing but whitespace.
    Empty,
    /// The text holds a character other than whitespace, a digit, `d`, `+` or `-`.
    IllegalCharacter,
    /// The text holds more than one sign.
    MultipleSigns,
    /// The characters are those of a phrase, but not in the order of one.
    Malformed,
    /// A number in the phrase is beyond what a roll can hold.
    NumeralTooLarge,
}

pub open spec fn is_sign(c: char) -> bool {
    c == '+' || c == '-'
}

/// The characters a phrase is made of, whitespace aside.
pub open spec fn is_symbol(c: char) -> bool {
    is_digit(c) || is_sign(c) || c == 'd'
}

/// `s` without its whitespace.
pub open spec fn strip(s: Seq<char>) -> Seq<char> {
    s.filter(|c: char| !is_space(c))
}

pub open spec fn has_illegal(t: Seq<char>) -> bool {
    exists|i: int| 0 <= i < t.len() && !is_symbol(#[trigger] t[i])
}

pub open spec fn has_two_signs(t: Seq<char>) -> bool {
    exists|i: int, j: int|
        0 <= i < j < t.len() && is_sign(#[trigger] t[i]) && is_sign(#[trigger] t[j])
}

/// Where the run of digits that starts at `from` ends: the first position at
/// or after `from` that holds no digit.
pub open spec fn digits_end(t: Seq<char>, from: int) -> int
    decreases t.len() - from,
{
    if 0 <= from < t.len() && is_digit(t[from]) {
        digits_end(t, from + 1)
    } else {
        from
    }
}

pub open spec fn signed(sign: char, magnitude: int) -> int {
    if sign == '-' {
        -magnitude
    } else {
        magnitude
    }
}

/// The roll that `count`, `d`, `faces`, `sign`, `bonus` stand for. An empty
/// `count` is one die. Where no digits stand between the `d` and the sign,
/// the digits after the sign are read as the number of faces, and the bonus
/// is zero.
pub open spec fn dice_value(count: Seq<char>, faces: Seq<char>, sign: char, bonus: Seq<char>)
    -> Result<DiceRoll, DiceSyntaxError> {
    let dice = if count.len() == 0 {
        1
    } else {
        numeral(count)
    };
    let sides = if faces.len() == 0 {
        numeral(bonus)
    } else {
        numeral(faces)
    };
    let extra = if faces.len() == 0 {
        0
    } else {
        signed(sign, numeral(bonus))
    };
    if dice <= i32::MAX && sides <= i32::MAX && i32::MIN <= extra <= i32::MAX {
        Ok(DiceRoll { faces: sides as i32, dice: dice as i32, bonus: extra as i32, advantage: 0 })
    } else {
        Err(DiceSyntaxError::NumeralTooLarge)
    }
}

/// The roll that `sign`, `bonus` alone stand for: no dice, and the bonus.
pub open spec fn flat_value(sign: char, bonus: Seq<char>) -> Result<DiceRoll, DiceSyntaxError> {
    let extra = signed(sign, numeral(bonus));
    if i32::MIN <= extra <= i32::MAX {
        Ok(DiceRoll { faces: 0, dice: 0, bonus: extra as i32, advantage: 0 })
    } else {
        Err(DiceSyntaxError::NumeralTooLarge)
    }
}

/// What a text without whitespace, made of symbols with at most one sign
/// among them, stands for.
pub open spec fn read_symbols(t: Seq<char>) -> Result<DiceRoll, DiceSyntaxError> {
    let a = digits_end(t, 0);
    if a < t.len() && t[a] == 'd' {
        let b = digits_end(t, a + 1);
        if b == t.len() {
            dice_value(t.subrange(0, a), t.subrange(a + 1, b), '+', Seq::empty())
        } else if is_sign(t[b]) && b + 1 < t.len() && digits_end(t, b + 1) == t.len() {
            dice_value(
                t.subrange(0, a),
                t.subrange(a + 1, b),
                t[b],
                t.subrange(b + 1, t.len() as int),
            )
        } else {
            Err(DiceSyntaxError::Malformed)
        }
    } else if a == 0 && 1 < t.len() && is_sign(t[0]) && digits_end(t, 1) == t.len() {
        flat_value(t[0], t.subrange(1, t.len() as int))
    } else {
        Err(DiceSyntaxError::Malformed)
    }
}

/// What the text `s` stands for as a dice phrase.
pub open spec fn phrase_value(s: Seq<char>) -> Result<DiceRoll, DiceSyntaxError> {
    let t = strip(s);
    if t.len() == 0 {
        Err(DiceSyntaxError::Empty)
    } else if has_illegal(t) {
        Err(DiceSyntaxError::IllegalCharacter)
    } else if has_two_signs(t) {
        Err(DiceSyntaxError::MultipleSigns)
    } else {
        read_symbols(t)
    }
}

/// `t` is `count`, `d`, `faces`.
pub open spec fn is_dice_form(t: Seq<char>, count: Seq<char>, faces: Seq<char>) -> bool {
    &&& all_digits(count)
    &&& all_digits(faces)
    &&& t == count + seq!['d'] + faces
}

/// `t` is `count`, `d`, `faces`, `sign`, `bonus`.
pub open spec fn is_dice_bonus_form(
    t: Seq<char>,
    count: Seq<char>,
    faces: Seq<char>,
    sign: char,
    bonus: Seq<char>,
) -> bool {
    &&& all_digits(count)
    &&& all_digits(faces)
    &&& is_sign(sign)
    &&& all_digits(bonus)
    &&& bonus.len() > 0
    &&& t == count + seq!['d'] + faces + seq![sign] + bonus
}

/// `t` is `sign`, `bonus`.
pub open spec fn is_flat_form(t: Seq<char>, sign: char, bonus: Seq<char>) -> bool {
    &&& is_sign(sign)
    &&& all_digits(bonus)
    &&& bonus.len() > 0
    &&& t == seq![sign] + bonus
}

/// The grammar of dice phrases, over a text without whitespace.
pub open spec fn in_grammar(t: Seq<char>) -> bool {
    ||| exists|count: Seq<char>, faces: Seq<char>| is_dice_form(t, count, faces)
    ||| exists|count: Seq<char>, faces: Seq<char>, sign: char, bonus: Seq<char>|
        is_dice_bonus_form(t, count, faces, sign, bonus)
    ||| exists|sign: char, bonus: Seq<char>| is_flat_form(t, sign, bonus)
}

/// The sign and the digits that a bonus is written as; nothing for no bonus.
pub open spec fn written_bonus(bonus: int) -> Seq<char> {
    if bonus == 0 {
        Seq::empty()
    } else if bonus < 0 {
        seq!['-'] + decimal((-bonus) as nat)
    } else {
        seq!['+'] + decimal(bonus as nat)
    }
}

/// The phrase that a roll is written as: the number of dice, `d`, the
/// number of faces, and the bonus with its sign where there is one.
pub open spec fn written(roll: DiceRoll) -> Seq<char> {
    signed_decimal(roll.dice as int) + seq!['d'] + signed_decimal(roll.faces as int)
        + written_bonus(roll.bonus as int)
}

/// The characters of `s` that are no whitespace, in order.
fn stripped(s: &str) -> (t: Vec<char>)
    ensures
        t@ == strip(s@),
{
    let mut t: Vec<char> = Vec::new();
    proof {
        reveal(Seq::filter);
    }
    for c in it: s.chars()
        invariant
            it.seq() == s@,
            t@ == strip(it.seq().take(it.index())),
    {
        proof {
            let done = it.seq().take(it.index());
            assert(it.seq().take(it.index() + 1) == done.push(c));
            done.lemma_filter_push(c, |c: char| !is_space(c));
        }
        if !is_whitespace(c) {
            t.push(c);
        }
    }
    proof {
        assert(s@.take(s@.len() as int) == s@);
    }
    t
}

fn is_sign_char(c: char) -> (r: bool)
    ensures
        r == is_sign(c),
{
    c == '+' || c == '-'
}

/// Whether every character of `t` is one a phrase is made of.
fn all_symbols(t: &Vec<char>) -> (r: bool)
    ensures
        r == !has_illegal(t@),
{
    let mut i: usize = 0;
    while i < t.len()
        invariant
            i <= t.len(),
            forall|k: int| 0 <= k < i ==> is_symbol(#[trigger] t@[k]),
        decreases t.len() - i,
    {
        let c = t[i];
        if !(is_decimal_digit(c) || is_sign_char(c) || c == 'd') {
            return false;
        }
        i += 1;
    }
    true
}

/// Whether `t` holds more than one sign.
fn two_signs(t: &Vec<char>) -> (r: bool)
    ensures
        r == has_two_signs(t@),
{
    let mut seen: bool = false;
    let ghost mut at: int = 0;
    let mut i: usize = 0;
    while i < t.len()
        invariant
            i <= t.len(),
            seen ==> 0 <= at < i && is_sign(t@[at]),
            !seen ==> forall|k: int| 0 <= k < i ==> !is_sign(#[trigger] t@[k]),
            seen ==> forall|k: int| 0 <= k < i && k != at ==> !is_sign(#[trigger] t@[k]),
        decreases t.len() - i,
    {
        if is_sign_char(t[i]) {
            if seen {
                return true;
            }
            seen = true;
            proof {
                at = i as int;
            }
        }
        i += 1;
    }
    false
}

/// Where the run of digits that starts at `from` ends.
fn scan_digits(t: &Vec<char>, from: usize) -> (end: usize)
    requires
        from <= t.len(),
    ensures
        end == digits_end(t@, from as int),
        from <= end <= t.len(),
        forall|k: int| from <= k < end ==> is_digit(#[trigger] t@[k]),
        end < t.len() ==> !is_digit(t@[end as int]),
{
    let mut i: usize = from;
    while i < t.len() && is_decimal_digit(t[i])
        invariant
            from <= i <= t.len(),
            digits_end(t@, from as int) == digits_end(t@, i as int),
            forall|k: int| from <= k < i ==> is_digit(#[trigger] t@[k]),
        decreases t.len() - i,
    {
        i += 1;
    }
    i
}

/// The number that the digits of `t` from `from` up to `to` stand for, where
/// it is at most 2147483648, the greatest magnitude that a number of a roll
/// can have.
fn read_numeral(t: &Vec<char>, from: usize, to: usize) -> (r: Option<i64>)
    requires
        from <= to <= t.len(),
        forall|k: int| from <= k < to ==> is_digit(#[trigger] t@[k]),
    ensures
        r is Some <==> numeral(t@.subrange(from as int, to as int)) <= 2147483648,
        r matches Some(v) ==> v == numeral(t@.subrange(from as int, to as int)),
        0 <= numeral(t@.subrange(from as int, to as int)),
{
    let ghost digits = t@.subrange(from as int, to as int);
    proof {
        lemma_numeral_grows(digits, 0);
    }
    let mut value: i64 = 0;
    let mut i: usize = from;
    while i < to
        invariant
            from <= i <= to <= t.len(),
            digits == t@.subrange(from as int, to as int),
            forall|k: int| 0 <= k < digits.len() ==> is_digit(#[trigger] digits[k]),
            value == numeral(digits.take(i - from)),
            0 <= value <= 2147483648,
        decreases to - i,
    {
        proof {
            assert(digits.take(i + 1 - from).drop_last() == digits.take(i - from));
            assert(digits.take(i + 1 - from).last() == t@[i as int]);
            assert(is_digit(digits[i - from]));
            lemma_numeral_grows(digits, i + 1 - from);
        }
        let digit: u32 = t[i] as u32 - '0' as u32;
        value = value * 10 + digit as i64;
        if value > 2147483648 {
            return None;
        }
        i += 1;
    }
    proof {
        assert(digits.take(to - from) == digits);
    }
    Some(value)
}

/// The roll for digits, `d`, digits, and a sign with digits: `d` stands at
/// `a`, the digits after it end at `b`, and those after the sign are the
/// ones from `c` up to `e`.
fn dice_roll_of(t: &Vec<char>, a: usize, b: usize, sign: char, c: usize, e: usize) -> (r: Result<
    DiceRoll,
    DiceSyntaxError,
>)
    requires
        a < b <= c <= e <= t.len(),
        forall|k: int| 0 <= k < a ==> is_digit(#[trigger] t@[k]),
        forall|k: int| a < k < b ==> is_digit(#[trigger] t@[k]),
        forall|k: int| c <= k < e ==> is_digit(#[trigger] t@[k]),
    ensures
        r == dice_value(
            t@.subrange(0, a as int),
            t@.subrange(a + 1, b as int),
            sign,
            t@.subrange(c as int, e as int),
        ),
{
    let count = read_numeral(t, 0, a);
    let faces = read_numeral(t, a + 1, b);
    let bonus = read_numeral(t, c, e);
    match (count, faces, bonus) {
        (Some(count), Some(faces), Some(bonus)) => {
            let dice: i64 = if a == 0 {
                1
            } else {
                count
            };
            let sides: i64 = if b == a + 1 {
                bonus
            } else {
                faces
            };
            let extra: i64 = if b == a + 1 {
                0
            } else if sign == '-' {
                -bonus
            } else {
                bonus
            };
            if dice <= 2147483647 && sides <= 2147483647 && -2147483648 <= extra && extra
                <= 2147483647 {
                Ok(
                    DiceRoll {
                        faces: sides as i32,
                        dice: dice as i32,
                        bonus: extra as i32,
                        advantage: 0,
                    },
                )
            } else {
                Err(DiceSyntaxError::NumeralTooLarge)
            }
        },
        _ => Err(DiceSyntaxError::NumeralTooLarge),
    }
}

/// The roll for a sign and the digits of `t` after it.
fn flat_roll_of(t: &Vec<char>) -> (r: Result<DiceRoll, DiceSyntaxError>)
    requires
        1 <= t.len(),
        forall|k: int| 1 <= k < t.len() ==> is_digit(#[trigger] t@[k]),
    ensures
        r == flat_value(t@[0], t@.subrange(1, t.len() as int)),
{
    match read_numeral(t, 1, t.len()) {
        Some(bonus) => {
            let extra: i64 = if t[0] == '-' {
                -bonus
            } else {
                bonus
            };
            if -2147483648 <= extra && extra <= 2147483647 {
                Ok(DiceRoll { faces: 0, dice: 0, bonus: extra as i32, advantage: 0 })
            } else {
                Err(DiceSyntaxError::NumeralTooLarge)
            }
        },
        None => Err(DiceSyntaxError::NumeralTooLarge),
    }
}

/// Reads a dice phrase.
///
/// Whitespace counts for nothing, wherever it stands. What is left must be
/// digits, `d`, digits, and optionally a sign and digits, or a sign and
/// digits alone: `2d8-5` is two dice of eight faces and five off, `d20` one
/// die of twenty faces, `+3` no dice and three. A text that is none of these
/// is answered with the first of the errors that holds of it, in the order
/// in which `DiceSyntaxError` lists them.
pub fn parse_dice_phrase(phrase: &str) -> (r: Result<DiceRoll, DiceSyntaxError>)
    ensures
        r == phrase_value(phrase@),
{
    let t = stripped(phrase);
    let n = t.len();
    if n == 0 {
        return Err(DiceSyntaxError::Empty);
    }
    if !all_symbols(&t) {
        return Err(DiceSyntaxError::IllegalCharacter);
    }
    if two_signs(&t) {
        return Err(DiceSyntaxError::MultipleSigns);
    }
    let a = scan_digits(&t, 0);
    if a < n && t[a] == 'd' {
        let b = scan_digits(&t, a + 1);
        if b == n {
            proof {
                assert(t@.subrange(b as int, b as int) == Seq::<char>::empty());
            }
            dice_roll_of(&t, a, b, '+', b, b)
        } else if is_sign_char(t[b]) && b + 1 < n {
            let e = scan_digits(&t, b + 1);
            if e == n {
                dice_roll_of(&t, a, b, t[b], b + 1, n)
            } else {
                Err(DiceSyntaxError::Malformed)
            }
        } else {
            Err(DiceSyntaxError::Malformed)
        }
    } else if a == 0 && 1 < n && is_sign_char(t[0]) {
        let e = scan_digits(&t, 1);
        if e == n {
            flat_roll_of(&t)
        } else {
            Err(DiceSyntaxError::Malformed)
        }
    } else {
        Err(DiceSyntaxError::Malformed)
    }
}

/// A run of digits that starts at `from` and is not continued at `to` ends at `to`.
proof fn lemma_digits_end_at(t: Seq<char>, from: int, to: int)
    requires
        0 <= from <= to <= t.len(),
        forall|k: int| from <= k < to ==> is_digit(#[trigger] t[k]),
        to < t.len() ==> !is_digit(t[to]),
    ensures
        digits_end(t, from) == to,
    decreases to - from,
{
    if from < to {
        assert(is_digit(t[from]));
        lemma_digits_end_at(t, from + 1, to);
    }
}

/// The run of digits that starts at `from` holds digits only and is not
/// continued where it ends.
proof fn lemma_digits_end_run(t: Seq<char>, from: int)
    requires
        0 <= from <= t.len(),
    ensures
        from <= digits_end(t, from) <= t.len(),
        forall|k: int| from <= k < digits_end(t, from) ==> is_digit(#[trigger] t[k]),
        digits_end(t, from) < t.len() ==> !is_digit(t[digits_end(t, from)]),
    decreases t.len() - from,
{
    if from < t.len() && is_digit(t[from]) {
        lemma_digits_end_run(t, from + 1);
    }
}

/// Digits, `d` and digits stand for that many dice of that many faces, one
/// die where no count is given, and no bonus.
pub proof fn lemma_dice_form(s: Seq<char>, count: Seq<char>, faces: Seq<char>)
    requires
        is_dice_form(strip(s), count, faces),
    ensures
        phrase_value(s) == dice_value(count, faces, '+', Seq::empty()),
{
    let t = strip(s);
    let a = count.len() as int;
    assert(t[a] == 'd');
    assert forall|k: int| 0 <= k < t.len() implies is_symbol(#[trigger] t[k]) && !is_sign(t[k]) by {
        if k < a {
            assert(is_digit(count[k]));
        } else if k > a {
            assert(is_digit(faces[k - a - 1]));
        }
    }
    assert forall|k: int| a < k < t.len() implies is_digit(#[trigger] t[k]) by {
        assert(is_digit(faces[k - a - 1]));
    }
    assert forall|k: int| 0 <= k < a implies is_digit(#[trigger] t[k]) by {
        assert(is_digit(count[k]));
    }
    lemma_digits_end_at(t, 0, a);
    lemma_digits_end_at(t, a + 1, t.len() as int);
    assert(t.subrange(0, a) == count);
    assert(t.subrange(a + 1, t.len() as int) == faces);
}

/// Digits, `d`, digits, a sign and digits stand for the dice with the
/// signed bonus; where no digits stand between `d` and the sign, for dice
/// with as many faces as the last digits say, and no bonus.
pub proof fn lemma_dice_bonus_form(
    s: Seq<char>,
    count: Seq<char>,
    faces: Seq<char>,
    sign: char,
    bonus: Seq<char>,
)
    requires
        is_dice_bonus_form(strip(s), count, faces, sign, bonus),
    ensures
        phrase_value(s) == dice_value(count, faces, sign, bonus),
{
    let t = strip(s);
    let a = count.len() as int;
    let b = a + 1 + faces.len();
    assert(t[a] == 'd');
    assert(t[b] == sign);
    assert forall|k: int| 0 <= k < a implies is_digit(#[trigger] t[k]) by {
        assert(is_digit(count[k]));
    }
    assert forall|k: int| a < k < b implies is_digit(#[trigger] t[k]) by {
        assert(is_digit(faces[k - a - 1]));
    }
    assert forall|k: int| b < k < t.len() implies is_digit(#[trigger] t[k]) by {
        assert(is_digit(bonus[k - b - 1]));
    }
    assert(!has_illegal(t));
    assert(!has_two_signs(t)) by {
        assert forall|i: int, j: int| 0 <= i < j < t.len() implies !(is_sign(#[trigger] t[i])
            && is_sign(#[trigger] t[j])) by {
            if i != b {
                assert(is_digit(t[i]) || t[i] == 'd');
            } else {
                assert(is_digit(t[j]));
            }
        }
    }
    lemma_digits_end_at(t, 0, a);
    lemma_digits_end_at(t, a + 1, b);
    lemma_digits_end_at(t, b + 1, t.len() as int);
    assert(t.subrange(0, a) == count);
    assert(t.subrange(a + 1, b) == faces);
    assert(t.subrange(b + 1, t.len() as int) == bonus);
}

/// A sign and digits alone stand for no dice and the signed bonus.
pub proof fn lemma_flat_form(s: Seq<char>, sign: char, bonus: Seq<char>)
    requires
        is_flat_form(strip(s), sign, bonus),
    ensures
        phrase_value(s) == flat_value(sign, bonus),
{
    let t = strip(s);
    assert(t[0] == sign);
    assert forall|k: int| 1 <= k < t.len() implies is_digit(#[trigger] t[k]) by {
        assert(is_digit(bonus[k - 1]));
    }
    assert(!has_illegal(t));
    assert(!has_two_signs(t)) by {
        assert forall|i: int, j: int| 0 <= i < j < t.len() implies !(is_sign(#[trigger] t[i])
            && is_sign(#[trigger] t[j])) by {
            assert(is_digit(t[j]));
        }
    }
    lemma_digits_end_at(t, 0, 0);
    lemma_digits_end_at(t, 1, t.len() as int);
    assert(t.subrange(1, t.len() as int) == bonus);
}

/// The phrases are the texts of the grammar, whatever whitespace stands in
/// them: a text of the grammar is read as a roll, unless a number in it is
/// too large for one, and any other text is refused for its form.
pub proof fn lemma_reads_the_grammar(s: Seq<char>)
    ensures
        in_grammar(strip(s)) <==> (phrase_value(s) is Ok || phrase_value(s) == Err::<
            DiceRoll,
            DiceSyntaxError,
        >(DiceSyntaxError::NumeralTooLarge)),
{
    let t = strip(s);
    if in_grammar(t) {
        if exists|count: Seq<char>, faces: Seq<char>| is_dice_form(t, count, faces) {
            let (count, faces) = choose|count: Seq<char>, faces: Seq<char>|
                is_dice_form(t, count, faces);
            lemma_dice_form(s, count, faces);
        } else if exists|count: Seq<char>, faces: Seq<char>, sign: char, bonus: Seq<char>|
            is_dice_bonus_form(t, count, faces, sign, bonus) {
            let (count, faces, sign, bonus) = choose|
                count: Seq<char>,
                faces: Seq<char>,
                sign: char,
                bonus: Seq<char>,
            | is_dice_bonus_form(t, count, faces, sign, bonus);
            lemma_dice_bonus_form(s, count, faces, sign, bonus);
        } else {
            let (sign, bonus) = choose|sign: char, bonus: Seq<char>| is_flat_form(t, sign, bonus);
            lemma_flat_form(s, sign, bonus);
        }
    }
    if phrase_value(s) is Ok || phrase_value(s) == Err::<DiceRoll, DiceSyntaxError>(
        DiceSyntaxError::NumeralTooLarge,
    ) {
        let n = t.len() as int;
        let a = digits_end(t, 0);
        lemma_digits_end_run(t, 0);
        if a < n && t[a] == 'd' {
            let b = digits_end(t, a + 1);
            lemma_digits_end_run(t, a + 1);
            let count = t.subrange(0, a);
            let faces = t.subrange(a + 1, b);
            if b == n {
                assert(t == count + seq!['d'] + faces);
                assert(is_dice_form(t, count, faces));
            } else {
                lemma_digits_end_run(t, b + 1);
                let bonus = t.subrange(b + 1, n);
                assert(t == count + seq!['d'] + faces + seq![t[b]] + bonus);
                assert(is_dice_bonus_form(t, count, faces, t[b], bonus));
            }
        } else {
            lemma_digits_end_run(t, 1);
            let bonus = t.subrange(1, n);
            assert(t == seq![t[0]] + bonus);
            assert(is_flat_form(t, t[0], bonus));
        }
    }
}

/// Writes a roll as a dice phrase, such as `1d5+2`.
pub fn write_dice_phrase(roll: &DiceRoll) -> (r: String)
    ensures
        r@ == written(*roll),
{
    proof {
        reveal_strlit("d");
        reveal_strlit("+");
        reveal_strlit("-");
    }
    let mut r = signed_decimal_text(roll.dice as i64);
    r.append("d");
    r.append(signed_decimal_text(roll.faces as i64).as_str());
    if roll.bonus < 0 {
        r.append("-");
        r.append(decimal_text((-(roll.bonus as i64)) as u64).as_str());
    } else if roll.bonus > 0 {
        r.append("+");
        r.append(decimal_text(roll.bonus as u64).as_str());
    }
    assert(r@ =~= written(*roll));
    r
}

/// A text that holds no whitespace is left as it is.
proof fn lemma_strip_nothing(s: Seq<char>)
    requires
        forall|i: int| 0 <= i < s.len() ==> !is_space(#[trigger] s[i]),
    ensures
        strip(s) == s,
    decreases s.len(),
{
    reveal(Seq::filter);
    if s.len() > 0 {
        lemma_strip_nothing(s.drop_last());
        assert(!is_space(s[s.len() - 1]));
        assert(s.drop_last().push(s.last()) == s);
    }
}

/// No symbol of a phrase is whitespace.
proof fn lemma_symbol_is_no_space(c: char)
    requires
        is_symbol(c),
    ensures
        !is_space(c),
{
}

/// Digits, `d` and digits are read as that many dice of that many faces.
proof fn lemma_plain_is_read_back(dice: nat, faces: nat)
    requires
        dice <= i32::MAX,
        faces <= i32::MAX,
    ensures
        phrase_value(decimal(dice) + seq!['d'] + decimal(faces)) == Ok::<DiceRoll, DiceSyntaxError>(
            DiceRoll { faces: faces as i32, dice: dice as i32, bonus: 0, advantage: 0 },
        ),
{
    let count = decimal(dice);
    let sides = decimal(faces);
    let w = count + seq!['d'] + sides;
    lemma_decimal(dice);
    lemma_decimal(faces);
    assert forall|i: int| 0 <= i < w.len() implies !is_space(#[trigger] w[i]) by {
        if i < count.len() {
            assert(is_digit(count[i]));
        } else if i > count.len() {
            assert(is_digit(sides[i - count.len() - 1]));
        }
        lemma_symbol_is_no_space(w[i]);
    }
    lemma_strip_nothing(w);
    lemma_dice_form(w, count, sides);
    assert(numeral(Seq::<char>::empty()) == 0);
}

/// Digits, `d`, digits, a sign and digits are read as the dice with the
/// signed bonus.
proof fn lemma_signed_is_read_back(dice: nat, faces: nat, sign: char, magnitude: nat)
    requires
        dice <= i32::MAX,
        faces <= i32::MAX,
        is_sign(sign),
        i32::MIN <= signed(sign, magnitude as int) <= i32::MAX,
    ensures
        phrase_value(decimal(dice) + seq!['d'] + decimal(faces) + seq![sign] + decimal(magnitude))
            == Ok::<DiceRoll, DiceSyntaxError>(
            DiceRoll {
                faces: faces as i32,
                dice: dice as i32,
                bonus: signed(sign, magnitude as int) as i32,
                advantage: 0,
            },
        ),
{
    let count = decimal(dice);
    let sides = decimal(faces);
    let bonus = decimal(magnitude);
    let w = count + seq!['d'] + sides + seq![sign] + bonus;
    lemma_decimal(dice);
    lemma_decimal(faces);
    lemma_decimal(magnitude);
    let b = count.len() + 1 + sides.len();
    assert forall|i: int| 0 <= i < w.len() implies !is_space(#[trigger] w[i]) by {
        if i < count.len() {
            assert(is_digit(count[i]));
        } else if count.len() < i < b {
            assert(is_digit(sides[i - count.len() - 1]));
        } else if i > b {
            assert(is_digit(bonus[i - b - 1]));
        }
        lemma_symbol_is_no_space(w[i]);
    }
    lemma_strip_nothing(w);
    lemma_dice_bonus_form(w, count, sides, sign, bonus);
}

/// What a roll without negative numbers of dice or faces is written as is
/// read as that roll again, made without advantage.
pub proof fn lemma_written_is_read_back(roll: DiceRoll)
    requires
        roll.dice >= 0,
        roll.faces >= 0,
    ensures
        phrase_value(written(roll)) == Ok::<DiceRoll, DiceSyntaxError>(
            DiceRoll { advantage: 0, ..roll },
        ),
{
    let count = decimal(roll.dice as nat);
    let faces = decimal(roll.faces as nat);
    if roll.bonus == 0 {
        assert(written(roll) == count + seq!['d'] + faces);
        lemma_plain_is_read_back(roll.dice as nat, roll.faces as nat);
    } else if roll.bonus < 0 {
        let magnitude = (-roll.bonus) as nat;
        assert(written(roll) == count + seq!['d'] + faces + seq!['-'] + decimal(magnitude));
        lemma_signed_is_read_back(roll.dice as nat, roll.faces as nat, '-', magnitude);
    } else {
        let magnitude = roll.bonus as nat;
        assert(written(roll) == count + seq!['d'] + faces + seq!['+'] + decimal(magnitude));
        lemma_signed_is_read_back(roll.dice as nat, roll.faces as nat, '+', magnitude);
    }
}

} // verus!
