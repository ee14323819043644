use tabletop::console::{split_words, ConsoleStatement};
use tabletop::phrase::{parse_dice_phrase, write_dice_phrase, DiceSyntaxError};
use tabletop::roll::DiceRoll;

fn dice_assert(str: &str) -> DiceRoll {
    match parse_dice_phrase(str) {
        Ok(v) => return v,
        Err(_) => panic!("Did not produce valid dice roll."),
    }
}

fn dice_value_assert(other: &DiceRoll, count: i32, faces: i32, bonus: i32) {
    assert_eq!(&DiceRoll::all(count, faces, bonus), other);
}

#[test]
fn con_test_01() {
    let res = ConsoleStatement::parse("lsmod -flag1a i4d6+3");
    assert_eq!(res.command, "lsmod");
    assert_eq!(res.arguments, vec!["i4d6+3"]);
    assert!(res.get_option("flag1a").is_some());
}

#[test]
fn dice_parse_1() {
    let test_str = " 1d3 + 6";
    let dice = dice_assert(test_str);
    dice_value_assert(&dice, 1, 3, 6);
}

#[test]
fn dice_parse_no_count() {
    let test_str = " d5 +2";
    let dice = dice_assert(test_str);
    dice_value_assert(&dice, 1, 5, 2);
}

#[test]
fn dice_parse_negative_bonus() {
    let test_str = "2d8- 5";
    dice_value_assert(&dice_assert(test_str), 2, 8, -5);
}

#[test]
fn dice_parse_bonus_only() {
    let test_str = "- 5";
    dice_value_assert(&dice_assert(test_str), 0, 0, -5);
}

#[test]
fn dice_only() {
    let test_str = "1d5";
    dice_value_assert(&dice_assert(test_str), 1, 5, 0);
}

#[test]
fn statement_of_the_example_line() {
    let res = ConsoleStatement::parse("lsmod -flag1a i4d6+3");
    assert_eq!(res.command, "lsmod");
    assert_eq!(res.arguments, vec!["i4d6+3".to_string()]);
    assert_eq!(res.get_option("flag1a"), Some(&String::new()));
    assert!(res.has_flag("flag1a"));
    assert!(!res.has_flag("flag1"));
    assert!(!res.has_flag("lsmod"));
}

#[test]
fn empty_line_is_an_empty_statement() {
    for line in ["", "   ", "\t\n"] {
        let res = ConsoleStatement::parse(line);
        assert_eq!(res.command, "");
        assert!(res.arguments.is_empty());
        assert!(!res.has_flag(""));
    }
}

#[test]
fn new_statement_is_empty_and_default_has_placeholder() {
    let res = ConsoleStatement::new();
    assert_eq!(res.command, "");
    assert!(res.arguments.is_empty());
    let res = ConsoleStatement::default();
    assert_eq!(res.command, "None.");
    assert!(res.arguments.is_empty());
    assert!(!res.has_flag("l"));
}

#[test]
fn command_is_kept_verbatim() {
    let res = ConsoleStatement::parse("  HeLp   -l\tHurt ");
    assert_eq!(res.command, "HeLp");
    assert_eq!(res.arguments, vec!["Hurt".to_string()]);
    assert_eq!(res.get_option("l"), Some(&String::new()));
    assert_eq!(res.get_option("L"), None);
}

#[test]
fn first_word_is_the_command_even_with_marker() {
    let res = ConsoleStatement::parse("-x a");
    assert_eq!(res.command, "-x");
    assert_eq!(res.arguments, vec!["a".to_string()]);
    assert!(!res.has_flag("x"));
}

#[test]
fn option_with_value_is_split_at_first_equals() {
    let res = ConsoleStatement::parse("act hudson -weapon=club -note=a=b target");
    assert_eq!(res.command, "act");
    assert_eq!(res.arguments, vec!["hudson".to_string(), "target".to_string()]);
    assert_eq!(res.get_option("weapon"), Some(&"club".to_string()));
    assert_eq!(res.get_option("note"), Some(&"a=b".to_string()));
    assert_eq!(res.get_option("weapon=club"), None);
}

#[test]
fn option_edge_cases() {
    let res = ConsoleStatement::parse("cmd - -flag= -=v");
    assert!(res.arguments.is_empty());
    assert_eq!(res.get_option("flag"), Some(&String::new()));
    assert_eq!(res.get_option(""), Some(&"v".to_string()));
    let res = ConsoleStatement::parse("cmd -");
    assert_eq!(res.get_option(""), Some(&String::new()));
}

#[test]
fn last_occurrence_of_an_option_wins() {
    let res = ConsoleStatement::parse("cmd -k=1 -j=x -k=2 -k");
    assert_eq!(res.get_option("k"), Some(&String::new()));
    assert_eq!(res.get_option("j"), Some(&"x".to_string()));
    let res = ConsoleStatement::parse("cmd -k -k=2");
    assert_eq!(res.get_option("k"), Some(&"2".to_string()));
}

#[test]
fn duplicate_arguments_are_kept_in_order() {
    let res = ConsoleStatement::parse("cmd b a b");
    assert_eq!(res.arguments, vec!["b".to_string(), "a".to_string(), "b".to_string()]);
}

#[test]
fn flags_valid_checks_every_option() {
    let res = ConsoleStatement::parse("help -l -v=1 hurt");
    assert!(res.flags_valid(&vec!["l".to_string(), "v".to_string(), "x".to_string()]));
    assert!(res.flags_valid(&vec!["v".to_string(), "l".to_string(), "l".to_string()]));
    assert!(!res.flags_valid(&vec!["l".to_string()]));
    assert!(!res.flags_valid(&vec![]));
    let res = ConsoleStatement::parse("help hurt");
    assert!(res.flags_valid(&vec![]));
}

#[test]
fn words_are_split_at_unicode_whitespace() {
    assert_eq!(split_words("a\u{a0}b\u{2003}c\u{3000}d\u{85}e"), vec!["a", "b", "c", "d", "e"]);
    assert_eq!(split_words("\u{200b}x"), vec!["\u{200b}x"]);
    assert_eq!(split_words("héllo wörld"), vec!["héllo", "wörld"]);
    assert!(split_words(" \r\n").is_empty());
}

#[test]
fn words_agree_with_std_on_every_separator() {
    for u in 0..=0x10FFFFu32 {
        if let Some(c) = char::from_u32(u) {
            assert_eq!(tabletop::text::is_whitespace(c), c.is_whitespace(), "{:x}", u);
        }
    }
}

#[test]
fn phrases_of_the_grammar() {
    assert_eq!(parse_dice_phrase("d"), Ok(DiceRoll::all(1, 0, 0)));
    assert_eq!(parse_dice_phrase("3d"), Ok(DiceRoll::all(3, 0, 0)));
    assert_eq!(parse_dice_phrase("d20"), Ok(DiceRoll::all(1, 20, 0)));
    assert_eq!(parse_dice_phrase("0d0+0"), Ok(DiceRoll::all(0, 0, 0)));
    assert_eq!(parse_dice_phrase("007d010-003"), Ok(DiceRoll::all(7, 10, -3)));
    assert_eq!(parse_dice_phrase("+ 7"), Ok(DiceRoll::all(0, 0, 7)));
    assert_eq!(parse_dice_phrase("1 2 d 3 4 + 5 6"), Ok(DiceRoll::all(12, 34, 56)));
    assert_eq!(parse_dice_phrase("\t4d6\u{a0}+3\n"), Ok(DiceRoll::all(4, 6, 3)));
}

#[test]
fn digits_after_a_bare_d_and_a_sign_are_faces() {
    assert_eq!(parse_dice_phrase("2d+3"), Ok(DiceRoll::all(2, 3, 0)));
    assert_eq!(parse_dice_phrase("d-8"), Ok(DiceRoll::all(1, 8, 0)));
}

#[test]
fn empty_phrase_is_refused() {
    assert_eq!(parse_dice_phrase(""), Err(DiceSyntaxError::Empty));
    assert_eq!(parse_dice_phrase(" \t "), Err(DiceSyntaxError::Empty));
}

#[test]
fn illegal_character_is_refused() {
    assert_eq!(parse_dice_phrase("1d6x"), Err(DiceSyntaxError::IllegalCharacter));
    assert_eq!(parse_dice_phrase("i4d6+3"), Err(DiceSyntaxError::IllegalCharacter));
    assert_eq!(parse_dice_phrase("1D6"), Err(DiceSyntaxError::IllegalCharacter));
    assert_eq!(parse_dice_phrase("1d6+2+x"), Err(DiceSyntaxError::IllegalCharacter));
    assert_eq!(parse_dice_phrase("1d٣"), Err(DiceSyntaxError::IllegalCharacter));
    assert_eq!(parse_dice_phrase("2*3"), Err(DiceSyntaxError::IllegalCharacter));
}

#[test]
fn second_sign_is_refused() {
    assert_eq!(parse_dice_phrase("1d6+2+3"), Err(DiceSyntaxError::MultipleSigns));
    assert_eq!(parse_dice_phrase("1d6+-3"), Err(DiceSyntaxError::MultipleSigns));
    assert_eq!(parse_dice_phrase("--5"), Err(DiceSyntaxError::MultipleSigns));
    assert_eq!(parse_dice_phrase("-1d6-"), Err(DiceSyntaxError::MultipleSigns));
}

#[test]
fn wrong_order_is_refused() {
    for text in ["5", "5+3", "2d6+", "+", "-", "d6d8", "dd", "+5d6", "1+d", "+d", "12 34"] {
        assert_eq!(parse_dice_phrase(text), Err(DiceSyntaxError::Malformed), "{}", text);
    }
}

#[test]
fn too_large_numbers_are_refused() {
    assert_eq!(parse_dice_phrase("2147483647d2147483647+2147483647"),
        Ok(DiceRoll::all(2147483647, 2147483647, 2147483647)));
    assert_eq!(parse_dice_phrase("1d1-2147483648"), Ok(DiceRoll::all(1, 1, -2147483648)));
    assert_eq!(parse_dice_phrase("-2147483648"), Ok(DiceRoll::all(0, 0, -2147483648)));
    assert_eq!(parse_dice_phrase("2147483648d6"), Err(DiceSyntaxError::NumeralTooLarge));
    assert_eq!(parse_dice_phrase("1d2147483648"), Err(DiceSyntaxError::NumeralTooLarge));
    assert_eq!(parse_dice_phrase("1d6+2147483648"), Err(DiceSyntaxError::NumeralTooLarge));
    assert_eq!(parse_dice_phrase("1d6-2147483649"), Err(DiceSyntaxError::NumeralTooLarge));
    assert_eq!(parse_dice_phrase("+2147483648"), Err(DiceSyntaxError::NumeralTooLarge));
    assert_eq!(parse_dice_phrase("d-2147483648"), Err(DiceSyntaxError::NumeralTooLarge));
    assert_eq!(parse_dice_phrase("99999999999999999999999999999999d6"),
        Err(DiceSyntaxError::NumeralTooLarge));
    assert_eq!(parse_dice_phrase("00000000000000000000000000000001d6"),
        Ok(DiceRoll::all(1, 6, 0)));
}

#[test]
fn parsing_is_deterministic() {
    for text in ["1d3 + 6", "d5 +2", "2d8- 5", "- 5", "1d5", "x", ""] {
        assert_eq!(parse_dice_phrase(text), parse_dice_phrase(text));
    }
}

#[test]
fn rolls_are_written_as_phrases() {
    assert_eq!(write_dice_phrase(&DiceRoll::all(1, 5, 2)), "1d5+2");
    assert_eq!(write_dice_phrase(&DiceRoll::all(2, 8, -5)), "2d8-5");
    assert_eq!(write_dice_phrase(&DiceRoll::all(1, 5, 0)), "1d5");
    assert_eq!(write_dice_phrase(&DiceRoll::all(0, 0, -5)), "0d0-5");
    assert_eq!(write_dice_phrase(&DiceRoll::all(10, 100, 1000)), "10d100+1000");
    assert_eq!(write_dice_phrase(&DiceRoll::all(0, 0, i32::MIN)), "0d0-2147483648");
    assert_eq!(write_dice_phrase(&DiceRoll::all(-1, -20, 0)), "-1d-20");
}

#[test]
fn written_phrases_are_read_back() {
    let numbers = [0, 1, 2, 9, 10, 11, 99, 100, 12345, i32::MAX];
    let bonuses = [0, 1, -1, 9, -10, 2147483647, -2147483647, i32::MIN];
    for dice in numbers {
        for faces in numbers {
            for bonus in bonuses {
                let roll = DiceRoll::all(dice, faces, bonus);
                let text = write_dice_phrase(&roll);
                assert_eq!(parse_dice_phrase(&text), Ok(roll), "{}", text);
            }
        }
    }
    let text = write_dice_phrase(&DiceRoll::all(1, 5, 2).with_advantage(3));
    assert_eq!(parse_dice_phrase(&text), Ok(DiceRoll::all(1, 5, 2)));
}

#[test]
fn scenarios_of_the_notation() {
    assert_eq!(parse_dice_phrase("1d3 + 6"), Ok(DiceRoll { faces: 3, dice: 1, bonus: 6, advantage: 0 }));
    assert_eq!(parse_dice_phrase("d5 +2"), Ok(DiceRoll { faces: 5, dice: 1, bonus: 2, advantage: 0 }));
    assert_eq!(parse_dice_phrase("2d8- 5"), Ok(DiceRoll { faces: 8, dice: 2, bonus: -5, advantage: 0 }));
    assert_eq!(parse_dice_phrase("- 5"), Ok(DiceRoll { faces: 0, dice: 0, bonus: -5, advantage: 0 }));
    assert_eq!(parse_dice_phrase("1d5"), Ok(DiceRoll { faces: 5, dice: 1, bonus: 0, advantage: 0 }));
    assert_eq!(parse_dice_phrase("1d5+2"), Ok(DiceRoll { faces: 5, dice: 1, bonus: 2, advantage: 0 }));
}

#[test]
fn decimal_texts() {
    assert_eq!(tabletop::text::decimal_text(0), "0");
    assert_eq!(tabletop::text::decimal_text(7), "7");
    assert_eq!(tabletop::text::decimal_text(10), "10");
    assert_eq!(tabletop::text::decimal_text(1234567890), "1234567890");
    assert_eq!(tabletop::text::decimal_text(u64::MAX), u64::MAX.to_string());
    assert_eq!(tabletop::text::signed_decimal_text(-42), "-42");
    assert_eq!(tabletop::text::signed_decimal_text(i64::MIN), i64::MIN.to_string());
    assert_eq!(tabletop::text::signed_decimal_text(i64::MAX), i64::MAX.to_string());
    assert_eq!(tabletop::text::signed_decimal_text(0), "0");
    assert!(tabletop::text::same_text("abc", "abc"));
    assert!(!tabletop::text::same_text("abc", "abd"));
    assert!(tabletop::text::is_decimal_digit('0') && tabletop::text::is_decimal_digit('9'));
    assert!(!tabletop::text::is_decimal_digit('a') && !tabletop::text::is_decimal_digit('٣'));
    assert_eq!(tabletop::text::chars_of("a b"), vec!['a', ' ', 'b']);
}
