//! The game at the table: its characters and what is done to them.

pub mod action;
pub mod character;
pub mod table_commands;

use crate::console::{ConsoleStatement, Statement};
use crate::roll::{DiceRoll, RollMode};
use crate::table::Table;
use character::Character;
use table_commands::cmd::{get_command, kind_named, performed};
use vstd::prelude::*;
use vstd::string::StringExecFns;

verus! {

/// The name under which a character is kept.
pub type CharId = String;

/// Someone at the table, and the characters they control.
pub struct Player {
    pub game_master: bool,
    pub controls: Vec<CharId>,
}

impl Player {
    /// The game master, who controls no character.
    pub fn new_as_dm() -> (r: Self)
        ensures
            r.game_master,
            r.controls@ == Seq::<CharId>::empty(),
    {
        Player { game_master: true, controls: Vec::new() }
    }

    /// A player who controls no character yet.
    pub fn new_as_player() -> (r: Self)
        ensures
            !r.game_master,
            r.controls@ == Seq::<CharId>::empty(),
    {
        Player { game_master: false, controls: Vec::new() }
    }

    /// A player who controls the character `char`.
    pub fn new_with_char(char: &CharId) -> (r: Self)
        ensures
            !r.game_master,
            r.controls@.len() == 1,
            r.controls@[0]@ == char@,
    {
        let mut controls: Vec<CharId> = Vec::new();
        controls.push(char.clone());
        Player { game_master: false, controls }
    }
}

/// A fight: who takes part, and whose turn it is.
pub struct Combat {
    pub combatants: Vec<CharId>,
    pub turn_order: Vec<u32>,
    pub turn_number: i32,
}

/// What can go wrong with a command.
#[derive(PartialEq, Eq, Structural, Clone, Copy, Debug)]
pub enum Error {
    NoSuchCharacter,
    NoSuchAction,
    DuplicateName,
    NoSuchStat,
    Usage,
    DicePhraseInvalid,
    ArgCount,
    ArgIncoherent,
    NoSuchFlag,
    NoSpellSlots,
}

impl Error {
    /// The name of the error.
    pub fn to_string(&self) -> (r: String)
        ensures
            r@ == self.name(),
    {
        match self {
            Error::NoSuchCharacter => String::from_str("NoSuchCharacter"),
            Error::NoSuchAction => String::from_str("NoSuchAction"),
            Error::DuplicateName => String::from_str("DuplicateName"),
            Error::NoSuchStat => String::from_str("NoSuchStat"),
            Error::Usage => String::from_str("Usage"),
            Error::DicePhraseInvalid => String::from_str("DicePhraseInvalid"),
            Error::ArgCount => String::from_str("ArgCount"),
            Error::ArgIncoherent => String::from_str("ArgIncoherent"),
            Error::NoSuchFlag => String::from_str("NoSuchFlag"),
            Error::NoSpellSlots => String::from_str("NoSpellSlots"),
        }
    }

    /// The name of the error.
    pub open spec fn name(&self) -> Seq<char> {
        match self {
            Error::NoSuchCharacter => "NoSuchCharacter"@,
            Error::NoSuchAction => "NoSuchAction"@,
            Error::DuplicateName => "DuplicateName"@,
            Error::NoSuchStat => "NoSuchStat"@,
            Error::Usage => "Usage"@,
            Error::DicePhraseInvalid => "DicePhraseInvalid"@,
            Error::ArgCount => "ArgCount"@,
            Error::ArgIncoherent => "ArgIncoherent"@,
            Error::NoSuchFlag => "NoSuchFlag"@,
            Error::NoSpellSlots => "NoSpellSlots"@,
        }
    }
}

/// The game: its characters by name, and the fight that is on, if any.
pub struct DndGame {
    characters: Table<Character>,
    combat_session: Option<Combat>,
}

impl View for DndGame {
    type V = Map<Seq<char>, Character>;

    /// The characters of the game, by the names they are kept under.
    closed spec fn view(&self) -> Map<Seq<char>, Character> {
        self.characters@
    }
}

/// What the game says of a command that failed.
pub open spec fn failure_text(e: Error) -> Seq<char> {
    "Error:"@ + e.name() + ".\n"@
}

/// What the game says of a command that it does not know.
pub open spec fn unknown_text(command: Seq<char>) -> Seq<char> {
    command + ": No such command.\n"@
}

/// What the game does with a statement and says of it: a command that it
/// knows is performed, and says what it has to say, or why it failed; any
/// other leaves the game as it is.
pub open spec fn replied(
    statement: Statement,
    before: Map<Seq<char>, Character>,
    after: Map<Seq<char>, Character>,
    reply: Seq<char>,
) -> bool {
    match kind_named(statement.command) {
        None => after == before && reply == unknown_text(statement.command),
        Some(kind) => exists|r: Result<String, Error>|
            {
                &&& #[trigger] performed(kind, statement, before, after, r)
                &&& match r {
                    Ok(text) => reply == text@,
                    Err(e) => reply == failure_text(e),
                }
            },
    }
}

/// `rolled` can be taken from `character` as damage: it is not negative,
/// and the health that is left can still be held.
pub open spec fn can_take(character: Character, rolled: int) -> bool {
    rolled >= 0 && character.stat_block.hp - rolled >= i32::MIN
}

impl DndGame {
    /// A game without characters.
    pub fn new() -> (r: Self)
        ensures
            r@ == Map::<Seq<char>, Character>::empty(),
    {
        DndGame { characters: Table::new(), combat_session: None }
    }

    /// A game for trying things out: Hudson is in it, under `hudson`.
    pub fn new_game_test() -> (r: Self)
        ensures
            r@.dom() == set!["hudson"@],
            r@["hudson"@].is_hudson(),
    {
        let hudson = Character::make_hudson();
        let mut characters: Table<Character> = Table::new();
        characters.insert(String::from_str("hudson"), hudson);
        let r = DndGame { characters, combat_session: None };
        proof {
            assert(r@.dom() =~= set!["hudson"@]);
        }
        r
    }

    /// Takes a line from a player. Nothing is done with it.
    pub fn do_line_user(&mut self, line: &str)
        ensures
            final(self)@ == old(self)@,
    {
    }

    /// Reads a statement from `line`, does what it says, and returns what
    /// there is to say of it.
    pub fn do_line(&mut self, line: &str) -> (reply: String)
        ensures
            replied(crate::console::statement_of(line@), old(self)@, final(self)@, reply@),
    {
        let cmd = ConsoleStatement::parse(line);
        self.do_command(&cmd)
    }

    /// Does what `cmd` says, and returns what there is to say of it.
    pub fn do_command(&mut self, cmd: &ConsoleStatement) -> (reply: String)
        ensures
            replied(cmd@, old(self)@, final(self)@, reply@),
    {
        match get_command(cmd.command.as_str()) {
            Some(cmd_vtable) => {
                let r = cmd_vtable.perform(cmd, self);
                match r {
                    Ok(text) => text,
                    Err(e) => {
                        let mut reply = String::from_str("Error:");
                        reply.append(e.to_string().as_str());
                        reply.append(".\n");
                        reply
                    },
                }
            },
            None => {
                let mut reply = cmd.command.clone();
                reply.append(": No such command.\n");
                reply
            },
        }
    }

    /// Whether a character is kept under `char`.
    pub fn charid_is_valid(&self, char: &CharId) -> (r: bool)
        ensures
            r == self@.contains_key(char@),
    {
        self.characters.contains_key(char.as_str())
    }

    /// The character kept under `char`.
    pub fn get_character(&self, char: &CharId) -> (r: Option<&Character>)
        ensures
            match r {
                Some(character) => self@.contains_key(char@) && *character == self@[char@],
                None => !self@.contains_key(char@),
            },
    {
        self.characters.get(char.as_str())
    }

    /// The character kept under `char`, to be changed in place.
    pub fn get_character_mut(&mut self, char: &CharId) -> (r: Option<&mut Character>)
        ensures
            match r {
                Some(character) => old(self)@.contains_key(char@) && *character == old(self)@[char@]
                    && final(self)@ == old(self)@.insert(char@, *final(character)),
                None => !old(self)@.contains_key(char@) && final(self)@ == old(self)@,
            },
    {
        self.characters.get_mut(char.as_str())
    }

    /// Takes `char` into the game under its name, unless a character is
    /// kept under that name already.
    pub fn add_character(&mut self, char: Character) -> (r: Result<CharId, Error>)
        ensures
            match r {
                Ok(name) => {
                    &&& !old(self)@.contains_key(char.name@)
                    &&& name@ == char.name@
                    &&& final(self)@ == old(self)@.insert(char.name@, char)
                },
                Err(e) => {
                    &&& old(self)@.contains_key(char.name@)
                    &&& e == Error::DuplicateName
                    &&& final(self)@ == old(self)@
                },
            },
    {
        let name = char.name.clone();
        if self.characters.contains_key(name.as_str()) {
            return Err(Error::DuplicateName);
        }
        self.characters.insert(name.clone(), char);
        Ok(name)
    }

    /// Hurts the character kept under `char` by `rolled`. Nothing is done
    /// where there is no such character, or where `rolled` cannot be taken
    /// from it as damage.
    pub fn apply_damage(&mut self, char: &CharId, rolled: i32) -> (r: Result<(), Error>)
        ensures
            match r {
                Ok(_) => old(self)@.contains_key(char@) && can_take(old(self)@[char@], rolled as int)
                    && final(self)@ == old(self)@.insert(
                    char@,
                    old(self)@[char@].hurt_by(rolled as int),
                ),
                Err(e) => final(self)@ == old(self)@ && if !old(self)@.contains_key(char@) {
                    e == Error::NoSuchCharacter
                } else {
                    e == Error::ArgIncoherent && !can_take(old(self)@[char@], rolled as int)
                },
            },
    {
        match self.characters.get_mut(char.as_str()) {
            Some(character) => {
                if rolled >= 0 && character.stat_block.hp as i64 - rolled as i64 >= -2147483648 {
                    character.hurt(rolled);
                    Ok(())
                } else {
                    proof {
                        assert(old(self)@.insert(char@, old(self)@[char@]) == old(self)@);
                    }
                    Err(Error::ArgIncoherent)
                }
            },
            None => Err(Error::NoSuchCharacter),
        }
    }

    /// Rolls `amt` and hurts the character kept under `char` by the result.
    ///
    /// Nothing is rolled where there is no such character, or where the
    /// roll cannot be made: it asks for dice without faces, or its highest
    /// total is beyond what a result can hold. Nothing is done where the
    /// result cannot be taken from the character as damage.
    pub fn hurt_character(&mut self, char: &CharId, amt: DiceRoll) -> (r: Result<(), Error>)
        ensures
            match r {
                Ok(_) => old(self)@.contains_key(char@) && amt.is_valid() && amt.fits(
                    RollMode::Normal,
                ) && exists|rolled: i32|
                    {
                        &&& #[trigger] amt.is_outcome(RollMode::Normal, rolled)
                        &&& can_take(old(self)@[char@], rolled as int)
                        &&& final(self)@ == old(self)@.insert(
                            char@,
                            old(self)@[char@].hurt_by(rolled as int),
                        )
                    },
                Err(e) => final(self)@ == old(self)@ && if !old(self)@.contains_key(char@) {
                    e == Error::NoSuchCharacter
                } else if !amt.is_valid() || !amt.fits(RollMode::Normal) {
                    e == Error::DicePhraseInvalid
                } else {
                    e == Error::ArgIncoherent
                },
            },
    {
        if !self.characters.contains_key(char.as_str()) {
            return Err(Error::NoSuchCharacter);
        }
        if !amt.can_roll(RollMode::Normal) {
            return Err(Error::DicePhraseInvalid);
        }
        match amt.evaluate(RollMode::Normal) {
            Ok(rolled) => self.apply_damage(char, rolled),
            Err(_) => Err(Error::DicePhraseInvalid),
        }
    }
}

impl Default for DndGame {
    /// A game without characters.
    fn default() -> (r: Self)
        ensures
            r@ == Map::<Seq<char>, Character>::empty(),
    {
        DndGame { characters: Table::new(), combat_session: None }
    }
}

} // verus!
