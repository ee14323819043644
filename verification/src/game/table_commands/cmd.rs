//! The commands by name: `hurt`, `help` and `lschar`.

use super::DndCommand;
use crate::console::{ConsoleStatement, Statement};
use crate::game::character::Character;
use crate::game::{can_take, DndGame, Error};
use crate::phrase::{parse_dice_phrase, phrase_value};
use crate::roll::RollMode;
use crate::text::{same_text, signed_decimal, signed_decimal_text};
use vstd::prelude::*;
use vstd::string::StringExecFns;

verus! {

/// Who may give a command, from the least to the most.
#[derive(PartialEq, Eq, Structural, PartialOrd, Clone, Copy, Debug)]
pub enum PermissionLevel {
    /// Anyone who watches.
    Spectator,
    /// Who controls the character in question.
    Controller,
    /// The game master only.
    GameMaster,
}

/// The commands there are.
#[derive(PartialEq, Eq, Structural, Clone, Copy, Debug)]
pub enum CommandKind {
    Hurt,
    Help,
    LsChar,
    Act,
}

/// The command that goes by `name`, if any.
pub open spec fn kind_named(name: Seq<char>) -> Option<CommandKind> {
    if name == "hurt"@ {
        Some(CommandKind::Hurt)
    } else if name == "help"@ {
        Some(CommandKind::Help)
    } else if name == "lschar"@ {
        Some(CommandKind::LsChar)
    } else {
        None
    }
}

/// How a command is used.
pub open spec fn help_text_of(kind: CommandKind, long: bool) -> Seq<char> {
    match kind {
        CommandKind::Hurt => if long {
            "Hurt a character by an amount equivalent to the given dice roll."@
        } else {
            "hurt character roll"@
        },
        CommandKind::Help => if long {
            "Provides a description of the given command. Pass -l to show the long version of a commands help text (as you have apparently just done)."@
        } else {
            "help [-l] command"@
        },
        CommandKind::LsChar => if long {
            "Show stats about a character."@
        } else {
            "lschar character"@
        },
        CommandKind::Act => if long {
            "Perform an action as character."@
        } else {
            "act character action_name option=value [target(s)]"@
        },
    }
}

/// Who may give a command.
pub open spec fn auth_level_of(kind: CommandKind) -> PermissionLevel {
    match kind {
        CommandKind::Hurt => PermissionLevel::GameMaster,
        CommandKind::Help => PermissionLevel::Spectator,
        CommandKind::LsChar => PermissionLevel::Spectator,
        CommandKind::Act => PermissionLevel::Controller,
    }
}

/// What is shown of a character: its name and its health, a line each.
pub open spec fn sheet_of(character: Character) -> Seq<char> {
    "Name:"@ + character.name@ + "\nHealth:"@ + signed_decimal(character.stat_block.hp as int)
        + "\n"@
}

/// `hurt character roll` hurts the character by what the roll comes to. It
/// takes two arguments, a character of the game, and a dice phrase that can
/// be rolled; the result must be damage that the character can take.
pub open spec fn hurt_performed(
    statement: Statement,
    before: Map<Seq<char>, Character>,
    after: Map<Seq<char>, Character>,
    r: Result<String, Error>,
) -> bool {
    let args = statement.arguments;
    if args.len() != 2 {
        after == before && r == Err::<String, Error>(Error::ArgCount)
    } else if !before.contains_key(args[0]) {
        after == before && r == Err::<String, Error>(Error::NoSuchCharacter)
    } else {
        match phrase_value(args[1]) {
            Err(_) => after == before && r == Err::<String, Error>(Error::ArgIncoherent),
            Ok(roll) => if !roll.is_valid() || !roll.fits(RollMode::Normal) {
                after == before && r == Err::<String, Error>(Error::DicePhraseInvalid)
            } else {
                ||| after == before && r == Err::<String, Error>(Error::ArgIncoherent)
                ||| {
                    &&& r matches Ok(text)
                    &&& text@ == Seq::<char>::empty()
                    &&& exists|rolled: i32|
                        {
                            &&& #[trigger] roll.is_outcome(RollMode::Normal, rolled)
                            &&& can_take(before[args[0]], rolled as int)
                            &&& after == before.insert(
                                args[0],
                                before[args[0]].hurt_by(rolled as int),
                            )
                        }
                }
            },
        }
    }
}

/// `help [-l] command` says how the command is used, at length with `-l`.
pub open spec fn help_performed(
    statement: Statement,
    before: Map<Seq<char>, Character>,
    after: Map<Seq<char>, Character>,
    r: Result<String, Error>,
) -> bool {
    let args = statement.arguments;
    &&& after == before
    &&& if args.len() != 1 {
        r == Err::<String, Error>(Error::ArgCount)
    } else {
        match kind_named(args[0]) {
            None => r == Err::<String, Error>(Error::NoSuchAction),
            Some(kind) => {
                &&& r matches Ok(text)
                &&& text@ == help_text_of(kind, statement.options.contains_key("l"@)) + "\n"@
            },
        }
    }
}

/// `lschar character` shows the character.
pub open spec fn lschar_performed(
    statement: Statement,
    before: Map<Seq<char>, Character>,
    after: Map<Seq<char>, Character>,
    r: Result<String, Error>,
) -> bool {
    let args = statement.arguments;
    &&& after == before
    &&& if args.len() == 0 {
        r == Err::<String, Error>(Error::ArgIncoherent)
    } else if !before.contains_key(args[0]) {
        r == Err::<String, Error>(Error::NoSuchCharacter)
    } else {
        &&& r matches Ok(text)
        &&& text@ == sheet_of(before[args[0]])
    }
}

/// What performing a command on `statement` does: the game before and
/// after, and what the command answers.
pub open spec fn performed(
    kind: CommandKind,
    statement: Statement,
    before: Map<Seq<char>, Character>,
    after: Map<Seq<char>, Character>,
    r: Result<String, Error>,
) -> bool {
    match kind {
        CommandKind::Hurt => hurt_performed(statement, before, after, r),
        CommandKind::Help => help_performed(statement, before, after, r),
        CommandKind::LsChar => lschar_performed(statement, before, after, r),
        CommandKind::Act => {
            &&& after == before
            &&& r matches Ok(text)
            &&& text@ == Seq::<char>::empty()
        },
    }
}

/// The command that goes by `name`.
pub fn get_command(name: &str) -> (r: Option<Box<dyn DndCommand>>)
    ensures
        match r {
            Some(command) => kind_named(name@) == Some(command.kind()),
            None => kind_named(name@) is None,
        },
{
    if same_text(name, "hurt") {
        Some(Box::new(HurtCmd {  }))
    } else if same_text(name, "help") {
        Some(Box::new(HelpCmd {  }))
    } else if same_text(name, "lschar") {
        Some(Box::new(LsCharCmd {  }))
    } else {
        None
    }
}

/// `hurt`.
pub struct HurtCmd;

impl DndCommand for HurtCmd {
    open spec fn kind(&self) -> CommandKind {
        CommandKind::Hurt
    }

    fn help_text(&self, long: bool) -> (r: &'static str) {
        if long {
            "Hurt a character by an amount equivalent to the given dice roll."
        } else {
            "hurt character roll"
        }
    }

    fn perform(&self, statement: &ConsoleStatement, game: &mut DndGame) -> (r: Result<
        String,
        Error,
    >) {
        if statement.arguments.len() != 2 {
            return Err(Error::ArgCount);
        }
        let char = &statement.arguments[0];
        if !game.charid_is_valid(char) {
            return Err(Error::NoSuchCharacter);
        }
        let roll = match parse_dice_phrase(statement.arguments[1].as_str()) {
            Ok(r) => r,
            Err(_) => return Err(Error::ArgIncoherent),
        };
        match game.hurt_character(char, roll) {
            Ok(_) => Ok(String::new()),
            Err(e) => Err(e),
        }
    }

    fn get_auth_level(&self) -> (r: PermissionLevel) {
        PermissionLevel::GameMaster
    }

    fn get_valid_flags(&self) -> (r: Vec<String>) {
        Vec::new()
    }
}

/// `help`.
pub struct HelpCmd;

impl DndCommand for HelpCmd {
    open spec fn kind(&self) -> CommandKind {
        CommandKind::Help
    }

    fn help_text(&self, long: bool) -> (r: &'static str) {
        if long {
            "Provides a description of the given command. Pass -l to show the long version of a commands help text (as you have apparently just done)."
        } else {
            "help [-l] command"
        }
    }

    fn perform(&self, statement: &ConsoleStatement, game: &mut DndGame) -> (r: Result<
        String,
        Error,
    >) {
        if statement.arguments.len() != 1 {
            Err(Error::ArgCount)
        } else {
            match get_command(statement.arguments[0].as_str()) {
                Some(cmd) => {
                    let long = statement.has_flag("l");
                    let mut text = String::from_str(cmd.help_text(long));
                    text.append("\n");
                    Ok(text)
                },
                None => Err(Error::NoSuchAction),
            }
        }
    }

    fn get_auth_level(&self) -> (r: PermissionLevel) {
        PermissionLevel::Spectator
    }

    fn get_valid_flags(&self) -> (r: Vec<String>) {
        Vec::new()
    }
}

/// `lschar`.
pub struct LsCharCmd;

impl DndCommand for LsCharCmd {
    open spec fn kind(&self) -> CommandKind {
        CommandKind::LsChar
    }

    fn get_auth_level(&self) -> (r: PermissionLevel) {
        PermissionLevel::Spectator
    }

    fn help_text(&self, long: bool) -> (r: &'static str) {
        if long {
            "Show stats about a character."
        } else {
            "lschar character"
        }
    }

    fn perform(&self, statement: &ConsoleStatement, game: &mut DndGame) -> (r: Result<
        String,
        Error,
    >) {
        if statement.arguments.len() == 0 {
            return Err(Error::ArgIncoherent);
        }
        match game.get_character(&statement.arguments[0]) {
            Some(char) => {
                let mut text = String::from_str("Name:");
                text.append(char.name.as_str());
                text.append("\nHealth:");
                text.append(signed_decimal_text(char.get_stat_block().hp as i64).as_str());
                text.append("\n");
                Ok(text)
            },
            None => Err(Error::NoSuchCharacter),
        }
    }

    fn get_valid_flags(&self) -> (r: Vec<String>) {
        Vec::new()
    }
}

/// `act`.
pub struct ActCmd;

impl DndCommand for ActCmd {
    open spec fn kind(&self) -> CommandKind {
        CommandKind::Act
    }

    fn perform(&self, statement: &ConsoleStatement, game: &mut DndGame) -> (r: Result<
        String,
        Error,
    >) {
        Ok(String::new())
    }

    fn get_auth_level(&self) -> (r: PermissionLevel) {
        PermissionLevel::Controller
    }

    fn help_text(&self, long: bool) -> (r: &'static str) {
        if long {
            "Perform an action as character."
        } else {
            "act character action_name option=value [target(s)]"
        }
    }

    fn get_valid_flags(&self) -> (r: Vec<String>) {
        Vec::new()
    }
}

} // verus!
