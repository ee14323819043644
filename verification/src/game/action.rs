//! What characters can do.

use super::character::Character;
use super::CharId;
use super::DndGame;
use super::Error;
use crate::table::Table;
use crate::text::same_text;
use vstd::prelude::*;

verus! {

/// The actions there are.
#[derive(PartialEq, Eq, Structural, Clone, Copy, Debug)]
pub enum ActionKind {
    ImprovisedAttack,
}

/// The action that goes by `name`, if any.
pub open spec fn action_named(name: Seq<char>) -> Option<ActionKind> {
    if name == "improvattack"@ {
        Some(ActionKind::ImprovisedAttack)
    } else {
        None
    }
}

/// What an action is about.
pub open spec fn about_text_of(kind: ActionKind) -> Seq<char> {
    match kind {
        ActionKind::ImprovisedAttack => "Attack with your fists or an improvised weapon"@,
    }
}

/// What performing an action does: the game stays as it is, and the action
/// answers with nothing, or fails where there is no character `user`.
pub open spec fn acted(
    kind: ActionKind,
    before: Map<Seq<char>, Character>,
    after: Map<Seq<char>, Character>,
    user: Seq<char>,
    r: Result<String, Error>,
) -> bool {
    &&& after == before
    &&& if before.contains_key(user) {
        &&& r matches Ok(text)
        &&& text@ == Seq::<char>::empty()
    } else {
        r == Err::<String, Error>(Error::NoSuchCharacter)
    }
}

/// An action of a character.
pub trait CharAction {
    /// Which action this is.
    spec fn kind(&self) -> ActionKind;

    /// Performs the action as `user` on `targets`.
    fn perform(
        &self,
        game: &mut DndGame,
        user: CharId,
        targets: Vec<CharId>,
        options: Table<String>,
    ) -> (r: Result<String, Error>)
        ensures
            acted(self.kind(), old(game)@, final(game)@, user@, r),
    ;

    /// What the action is about.
    fn about_text(&self) -> (r: &'static str)
        ensures
            r@ == about_text_of(self.kind()),
    ;

    /// The options that the action takes: none.
    fn get_options(&self) -> (r: Table<String>)
        ensures
            r@ == Map::<Seq<char>, String>::empty(),
    ;
}

/// An attack with the fists or with whatever is at hand.
pub struct ImprovisedAttack;

impl CharAction for ImprovisedAttack {
    open spec fn kind(&self) -> ActionKind {
        ActionKind::ImprovisedAttack
    }

    fn about_text(&self) -> (r: &'static str) {
        "Attack with your fists or an improvised weapon"
    }

    fn perform(
        &self,
        game: &mut DndGame,
        user: CharId,
        targets: Vec<CharId>,
        options: Table<String>,
    ) -> (r: Result<String, Error>) {
        match game.get_character(&user) {
            Some(_) => Ok(String::new()),
            None => Err(Error::NoSuchCharacter),
        }
    }

    fn get_options(&self) -> (r: Table<String>) {
        Table::new()
    }
}

/// The action that goes by `name`.
pub fn get_action(name: &str) -> (r: Option<Box<dyn CharAction>>)
    ensures
        match r {
            Some(action) => action_named(name@) == Some(action.kind()),
            None => action_named(name@) is None,
        },
{
    if same_text(name, "improvattack") {
        Some(Box::new(ImprovisedAttack {  }))
    } else {
        None
    }
}

} // verus!
