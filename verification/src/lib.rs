//! A text-driven tabletop session engine: statements typed at a console are
//! split into a command with arguments and options, dice phrases such as
//! `2d8-5` are read and rolled, and the result is applied to a character's
//! health.

pub mod console;
pub mod game;
pub mod phrase;
pub mod roll;
pub mod table;
pub mod text;
