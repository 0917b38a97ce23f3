//! The terminal interface: its screens, the rows that they show, what each key
//! does, and the texts around them.

pub mod app;
pub mod eq;
pub mod help;
pub mod keys;
pub mod outcome;
pub mod player_bar;
pub mod screens;
pub mod scrobble;
pub mod texts;
pub mod theme;
