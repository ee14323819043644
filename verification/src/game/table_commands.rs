//! The commands of the table: what each of them is, and what it does to the
//! game when it is performed on a statement.

pub mod cmd;

use super::DndGame;
use super::Error;
use crate::console::ConsoleStatement;
use cmd::{auth_level_of, help_text_of, performed, CommandKind, PermissionLevel};
use vstd::prelude::*;

verus! {

/// A command of the table.
pub trait DndCommand {
    /// Which command this is.
    spec fn kind(&self) -> CommandKind;

    /// How the command is used: in a line, or at length where `long` is set.
    fn help_text(&self, long: bool) -> (r: &'static str)
        ensures
            r@ == help_text_of(self.kind(), long),
    ;

    /// Performs the command on `statement`, and returns what it has to say.
    /// A command that fails leaves the game as it was.
    fn perform(&self, statement: &ConsoleStatement, game: &mut DndGame) -> (r: Result<
        String,
        Error,
    >)
        ensures
            performed(self.kind(), statement@, old(game)@, final(game)@, r),
    ;

    /// Who may give the command.
    fn get_auth_level(&self) -> (r: PermissionLevel)
        ensures
            r == auth_level_of(self.kind()),
    ;

    /// The options that the command takes: none.
    fn get_valid_flags(&self) -> (r: Vec<String>)
        ensures
            r@ == Seq::<String>::empty(),
    ;
}

} // verus!
