use tabletop::console::ConsoleStatement;
use tabletop::game::action::get_action;
use tabletop::game::character::stat::{
    score_to_bonus, ScoreEnum, SkillEnum, StatBlock, StatEnum,
};
use tabletop::game::character::{CharState, Character};
use tabletop::game::table_commands::cmd::{get_command, PermissionLevel};
use tabletop::game::{DndGame, Error, Player};
use tabletop::roll::DiceRoll;
use tabletop::table::Table;

fn hudson_in(state: CharState, hp: i32) -> Character {
    let mut c = Character::make_hudson();
    c.state = state;
    c.stat_block.hp = hp;
    c
}

#[test]
fn hudson_starts_alive_with_ordinary_numbers() {
    let c = Character::make_hudson();
    assert_eq!(c.name, "Hudson");
    assert_eq!(c.state, CharState::Alive);
    let b = c.get_stat_block();
    assert_eq!((b.level, b.str, b.dex, b.con, b.int, b.chr, b.wis), (4, 10, 10, 10, 10, 10, 10));
    assert_eq!((b.proficiency_bonus, b.hp, b.max_hp, b.temp_hp), (2, 25, 30, 0));
    assert_eq!((b.armor_class, b.speed), (10, 30));
    assert!(b.proficient.is_empty());
}

#[test]
fn hurt_below_zero_is_a_death_save() {
    let mut c = Character::make_hudson();
    c.hurt(30);
    assert_eq!(c.get_stat_block().hp, -5);
    assert_eq!(c.state, CharState::DeathSave);
}

#[test]
fn hurt_below_twice_the_maximum_is_death() {
    let mut c = Character::make_hudson();
    c.hurt(100);
    assert_eq!(c.get_stat_block().hp, -75);
    assert_eq!(c.state, CharState::Dead);
}

#[test]
fn hurt_at_the_thresholds() {
    let mut c = Character::make_hudson();
    c.hurt(25);
    assert_eq!((c.stat_block.hp, c.state), (0, CharState::Alive));
    c.hurt(1);
    assert_eq!((c.stat_block.hp, c.state), (-1, CharState::DeathSave));
    c.hurt(59);
    assert_eq!((c.stat_block.hp, c.state), (-60, CharState::DeathSave));
    c.hurt(1);
    assert_eq!((c.stat_block.hp, c.state), (-61, CharState::Dead));
    let mut c = Character::make_hudson();
    c.hurt(0);
    assert_eq!((c.stat_block.hp, c.state), (25, CharState::Alive));
}

#[test]
fn hurt_above_zero_keeps_the_state() {
    for state in [CharState::Alive, CharState::Incapacitated, CharState::DeathSave] {
        let mut c = hudson_in(state, 10);
        c.hurt(10);
        assert_eq!((c.stat_block.hp, c.state), (0, state));
    }
    let mut c = hudson_in(CharState::Incapacitated, 3);
    c.hurt(4);
    assert_eq!((c.stat_block.hp, c.state), (-1, CharState::DeathSave));
}

#[test]
fn the_dead_and_the_undead_stay_what_they_are() {
    for state in [CharState::Dead, CharState::Undead] {
        let mut c = hudson_in(state, 5);
        c.hurt(10);
        assert_eq!((c.stat_block.hp, c.state), (-5, state));
        c.hurt(1000);
        assert_eq!((c.stat_block.hp, c.state), (-1005, state));
        c.heal(2000);
        assert_eq!((c.stat_block.hp, c.state), (30, state));
        c.hurt(1);
        assert_eq!((c.stat_block.hp, c.state), (29, state));
    }
}

#[test]
fn heal_stops_at_the_maximum() {
    let mut c = Character::make_hudson();
    c.heal(3);
    assert_eq!((c.stat_block.hp, c.state), (28, CharState::Alive));
    c.heal(3);
    assert_eq!((c.stat_block.hp, c.state), (30, CharState::Alive));
    c.heal(i32::MAX);
    assert_eq!(c.stat_block.hp, 30);
    c.heal(0);
    assert_eq!(c.stat_block.hp, 30);
    let mut c = hudson_in(CharState::Alive, i32::MIN);
    c.heal(i32::MAX);
    assert_eq!(c.stat_block.hp, -1);
}

#[test]
fn heal_steadies_the_dying() {
    let mut c = Character::make_hudson();
    c.hurt(30);
    assert_eq!(c.state, CharState::DeathSave);
    c.heal(0);
    assert_eq!((c.stat_block.hp, c.state), (-5, CharState::DeathSave));
    c.heal(1);
    assert_eq!((c.stat_block.hp, c.state), (-4, CharState::Incapacitated));
    c.heal(10);
    assert_eq!((c.stat_block.hp, c.state), (6, CharState::Incapacitated));
}

#[test]
fn set_health_heals_by_the_reading() {
    let mut c = Character::make_hudson();
    c.hurt(20);
    c.set_health(4);
    assert_eq!(c.stat_block.hp, 9);
    c.set_health(100);
    assert_eq!(c.stat_block.hp, 30);
}

#[test]
fn states_are_ordered_by_severity() {
    let all = [CharState::Alive, CharState::Incapacitated, CharState::DeathSave, CharState::Dead,
        CharState::Undead];
    for (i, a) in all.iter().enumerate() {
        assert_eq!(a.severity() as usize, i);
        for b in all.iter() {
            assert_eq!(a < b, a.severity() < b.severity());
            assert_eq!(a == b, a.severity() == b.severity());
        }
    }
}

#[test]
fn scores_and_bonuses() {
    let mut b = StatBlock::new_default();
    b.str = 18;
    b.dex = 7;
    b.wis = 12;
    assert_eq!(score_to_bonus(10), 5);
    assert_eq!(score_to_bonus(18), 13);
    assert_eq!(b.get_score(&ScoreEnum::Strength), 18);
    assert_eq!(b.get_score(&ScoreEnum::Dexterity), 7);
    assert_eq!(b.get_bonus(&ScoreEnum::Strength), 13);
    assert_eq!(b.get_score(&SkillEnum::Athletics), 18);
    assert_eq!(b.get_score(&SkillEnum::Stealth), 7);
    assert_eq!(b.get_score(&SkillEnum::Perception), 12);
    assert_eq!(b.get_bonus(&SkillEnum::Perception), 7);
    assert!(!b.is_proficient(SkillEnum::Perception));
    b.proficient.push(SkillEnum::Perception);
    assert!(b.is_proficient(SkillEnum::Perception));
    assert!(!b.is_proficient(SkillEnum::Stealth));
    assert_eq!(b.get_bonus(&SkillEnum::Perception), 9);
    assert_eq!(b.get_bonus(&SkillEnum::Stealth), 2);
    assert_eq!(b.get_score(&StatEnum::from(SkillEnum::Arcana)), 10);
    assert_eq!(b.get_bonus(&StatEnum::from(ScoreEnum::Strength)), 13);
    assert_eq!(b.get_bonus(&StatEnum::SkillType(SkillEnum::Perception)), 9);
    let stat: StatEnum = ScoreEnum::Wisdom.into();
    assert_eq!(stat, StatEnum::ScoreType(ScoreEnum::Wisdom));
}

#[test]
fn each_skill_rests_on_its_ability() {
    let table = [
        (SkillEnum::AnimalHandling, ScoreEnum::Wisdom),
        (SkillEnum::Acrobatics, ScoreEnum::Dexterity),
        (SkillEnum::Arcana, ScoreEnum::Intelligence),
        (SkillEnum::Athletics, ScoreEnum::Strength),
        (SkillEnum::Deception, ScoreEnum::Charisma),
        (SkillEnum::History, ScoreEnum::Intelligence),
        (SkillEnum::Insight, ScoreEnum::Wisdom),
        (SkillEnum::Intimidation, ScoreEnum::Charisma),
        (SkillEnum::Investigation, ScoreEnum::Intelligence),
        (SkillEnum::Medicine, ScoreEnum::Wisdom),
        (SkillEnum::Nature, ScoreEnum::Intelligence),
        (SkillEnum::Perception, ScoreEnum::Wisdom),
        (SkillEnum::Performance, ScoreEnum::Charisma),
        (SkillEnum::Persuasion, ScoreEnum::Charisma),
        (SkillEnum::Religion, ScoreEnum::Intelligence),
        (SkillEnum::SleightOfHand, ScoreEnum::Dexterity),
        (SkillEnum::Stealth, ScoreEnum::Dexterity),
        (SkillEnum::Survival, ScoreEnum::Wisdom),
    ];
    for (skill, score) in table {
        assert_eq!(skill.get_base_score(), score);
    }
}

#[test]
fn a_skill_check_is_a_d20_and_the_bonus() {
    let b = StatBlock::new_default();
    let mut below = false;
    for _ in 0..300 {
        let r = b.skill_check(&SkillEnum::Stealth);
        assert!(1 + 5 <= r && r <= 20 + 5);
        if r < 25 {
            below = true;
        }
    }
    assert!(below);
}

#[test]
fn errors_are_named() {
    assert_eq!(Error::NoSuchCharacter.to_string(), "NoSuchCharacter");
    assert_eq!(Error::NoSuchAction.to_string(), "NoSuchAction");
    assert_eq!(Error::DuplicateName.to_string(), "DuplicateName");
    assert_eq!(Error::NoSuchStat.to_string(), "NoSuchStat");
    assert_eq!(Error::Usage.to_string(), "Usage");
    assert_eq!(Error::DicePhraseInvalid.to_string(), "DicePhraseInvalid");
    assert_eq!(Error::ArgCount.to_string(), "ArgCount");
    assert_eq!(Error::ArgIncoherent.to_string(), "ArgIncoherent");
    assert_eq!(Error::NoSuchFlag.to_string(), "NoSuchFlag");
    assert_eq!(Error::NoSpellSlots.to_string(), "NoSpellSlots");
}

#[test]
fn players() {
    let dm = Player::new_as_dm();
    assert!(dm.game_master && dm.controls.is_empty());
    let p = Player::new_as_player();
    assert!(!p.game_master && p.controls.is_empty());
    let p = Player::new_with_char(&"hudson".to_string());
    assert!(!p.game_master);
    assert_eq!(p.controls, vec!["hudson".to_string()]);
}

#[test]
fn a_table_keeps_the_last_value_under_a_key() {
    let mut t: Table<i32> = Table::new();
    assert!(!t.contains_key("a"));
    assert_eq!(t.get("a"), None);
    t.insert("a".to_string(), 1);
    t.insert("b".to_string(), 2);
    t.insert("a".to_string(), 3);
    assert_eq!(t.get("a"), Some(&3));
    assert_eq!(t.get("b"), Some(&2));
    assert_eq!(t.get(""), None);
    assert!(t.contains_key("b"));
    if let Some(v) = t.get_mut("a") {
        *v = 7;
    }
    assert_eq!(t.get("a"), Some(&7));
    assert!(t.get_mut("c").is_none());
    assert!(t.keys_within(&vec!["b".to_string(), "a".to_string()]));
    assert!(!t.keys_within(&vec!["a".to_string()]));
}

#[test]
fn a_new_game_has_no_characters() {
    let game = DndGame::new();
    assert!(!game.charid_is_valid(&"hudson".to_string()));
    assert!(game.get_character(&"hudson".to_string()).is_none());
    let game = DndGame::default();
    assert!(!game.charid_is_valid(&"hudson".to_string()));
}

#[test]
fn the_test_game_has_hudson() {
    let mut game = DndGame::new_game_test();
    let id = "hudson".to_string();
    assert!(game.charid_is_valid(&id));
    assert!(!game.charid_is_valid(&"Hudson".to_string()));
    assert_eq!(game.get_character(&id).unwrap().name, "Hudson");
    assert_eq!(game.get_character(&id).unwrap().stat_block.hp, 25);
    game.get_character_mut(&id).unwrap().hurt(5);
    assert_eq!(game.get_character(&id).unwrap().stat_block.hp, 20);
    assert!(game.get_character_mut(&"nobody".to_string()).is_none());
}

#[test]
fn characters_are_added_under_their_names_once() {
    let mut game = DndGame::new();
    assert_eq!(game.add_character(Character::make_hudson()), Ok("Hudson".to_string()));
    assert!(game.charid_is_valid(&"Hudson".to_string()));
    let mut second = Character::make_hudson();
    second.stat_block.hp = 1;
    assert_eq!(game.add_character(second), Err(Error::DuplicateName));
    assert_eq!(game.get_character(&"Hudson".to_string()).unwrap().stat_block.hp, 25);
    let mut other = Character::make_hudson();
    other.name = "Watson".to_string();
    assert_eq!(game.add_character(other), Ok("Watson".to_string()));
}

#[test]
fn damage_is_applied_or_refused() {
    let mut game = DndGame::new_game_test();
    let id = "hudson".to_string();
    assert_eq!(game.apply_damage(&id, 30), Ok(()));
    let c = game.get_character(&id).unwrap();
    assert_eq!((c.stat_block.hp, c.state), (-5, CharState::DeathSave));
    assert_eq!(game.apply_damage(&id, -1), Err(Error::ArgIncoherent));
    assert_eq!(game.apply_damage(&id, i32::MAX), Err(Error::ArgIncoherent));
    assert_eq!(game.apply_damage(&"nobody".to_string(), 1), Err(Error::NoSuchCharacter));
    assert_eq!(game.get_character(&id).unwrap().stat_block.hp, -5);
    assert_eq!(game.apply_damage(&id, 0), Ok(()));
    assert_eq!(game.get_character(&id).unwrap().stat_block.hp, -5);
}

#[test]
fn a_character_is_hurt_by_what_is_rolled() {
    let id = "hudson".to_string();
    for _ in 0..100 {
        let mut game = DndGame::new_game_test();
        assert_eq!(game.hurt_character(&id, DiceRoll::all(2, 6, 1)), Ok(()));
        let hp = game.get_character(&id).unwrap().stat_block.hp;
        assert!(25 - 13 <= hp && hp <= 25 - 3);
    }
    let mut game = DndGame::new_game_test();
    assert_eq!(game.hurt_character(&id, DiceRoll::flat_number(100)), Ok(()));
    assert_eq!(game.get_character(&id).unwrap().state, CharState::Dead);
    assert_eq!(game.hurt_character(&"x".to_string(), DiceRoll::d20()), Err(Error::NoSuchCharacter));
    assert_eq!(game.hurt_character(&id, DiceRoll::all(2, 0, 0)), Err(Error::DicePhraseInvalid));
    assert_eq!(game.hurt_character(&id, DiceRoll::all(2, i32::MAX, 0)),
        Err(Error::DicePhraseInvalid));
    assert_eq!(game.hurt_character(&id, DiceRoll::flat_number(-3)), Err(Error::ArgIncoherent));
    assert_eq!(game.get_character(&id).unwrap().stat_block.hp, -75);
}

#[test]
fn commands_go_by_name() {
    let hurt = get_command("hurt").unwrap();
    assert_eq!(hurt.help_text(false), "hurt character roll");
    assert_eq!(hurt.help_text(true),
        "Hurt a character by an amount equivalent to the given dice roll.");
    assert!(hurt.get_auth_level() == PermissionLevel::GameMaster);
    assert!(hurt.get_valid_flags().is_empty());
    let help = get_command("help").unwrap();
    assert_eq!(help.help_text(false), "help [-l] command");
    assert!(help.get_auth_level() == PermissionLevel::Spectator);
    let ls = get_command("lschar").unwrap();
    assert_eq!(ls.help_text(false), "lschar character");
    assert_eq!(ls.help_text(true), "Show stats about a character.");
    assert!(ls.get_auth_level() == PermissionLevel::Spectator);
    assert!(get_command("act").is_none());
    assert!(get_command("Hurt").is_none());
    assert!(get_command("").is_none());
    assert!(PermissionLevel::Spectator < PermissionLevel::Controller);
    assert!(PermissionLevel::Controller < PermissionLevel::GameMaster);
}

#[test]
fn lines_are_answered() {
    let mut game = DndGame::new_game_test();
    assert_eq!(game.do_line("help hurt"), "hurt character roll\n");
    assert_eq!(game.do_line("help -l lschar"), "Show stats about a character.\n");
    assert_eq!(game.do_line("help"), "Error:ArgCount.\n");
    assert_eq!(game.do_line("help a b"), "Error:ArgCount.\n");
    assert_eq!(game.do_line("help dance"), "Error:NoSuchAction.\n");
    assert_eq!(game.do_line("lschar hudson"), "Name:Hudson\nHealth:25\n");
    assert_eq!(game.do_line("lschar"), "Error:ArgIncoherent.\n");
    assert_eq!(game.do_line("lschar watson"), "Error:NoSuchCharacter.\n");
    assert_eq!(game.do_line("dance now"), "dance: No such command.\n");
    assert_eq!(game.do_line(""), ": No such command.\n");
    assert_eq!(game.do_line("hurt hudson"), "Error:ArgCount.\n");
    assert_eq!(game.do_line("hurt watson 1d6"), "Error:NoSuchCharacter.\n");
    assert_eq!(game.do_line("hurt hudson 1x6"), "Error:ArgIncoherent.\n");
    assert_eq!(game.do_line("hurt hudson 2d"), "Error:DicePhraseInvalid.\n");
    assert_eq!(game.do_line("hurt hudson -5"), "Error:ArgCount.\n");
    assert_eq!(game.do_line("hurt hudson 0d0-5"), "Error:ArgIncoherent.\n");
    assert_eq!(game.do_line("lschar hudson"), "Name:Hudson\nHealth:25\n");
    assert_eq!(game.do_line("hurt hudson +30"), "");
    assert_eq!(game.do_line("lschar hudson"), "Name:Hudson\nHealth:-5\n");
    assert_eq!(game.do_line("hurt hudson 3d1"), "");
    assert_eq!(game.do_line("lschar hudson"), "Name:Hudson\nHealth:-8\n");
    game.do_line_user("hurt hudson +30");
    assert_eq!(game.do_line("lschar hudson"), "Name:Hudson\nHealth:-8\n");
    let cmd = ConsoleStatement::parse("help help");
    assert_eq!(game.do_command(&cmd), "help [-l] command\n");
}

#[test]
fn actions_go_by_name() {
    let attack = get_action("improvattack").unwrap();
    assert_eq!(attack.about_text(), "Attack with your fists or an improvised weapon");
    assert!(!attack.get_options().contains_key("weapon"));
    let mut game = DndGame::new_game_test();
    assert_eq!(attack.perform(&mut game, "hudson".to_string(), vec![], Table::new()),
        Ok(String::new()));
    assert_eq!(attack.perform(&mut game, "watson".to_string(), vec![], Table::new()),
        Err(Error::NoSuchCharacter));
    assert!(get_action("attack").is_none());
}
