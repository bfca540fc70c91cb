//! Terminal color themes, carried from one terminal to another.
//!
//! A theme is read from the text of a Kitty or an Alacritty theme file into a
//! model that belongs to no terminal (`colors`), by the readers in
//! `theme_parser`, and written from the model as the text of a Foot, an
//! Alacritty or a Kitty theme file, by the writers in `theme_creator`. `convert`
//! puts the two together and `args` holds the options of a conversion. The
//! library reads and writes text only: opening and saving files is left to its
//! caller.
//!
//! Every function is verified against its contract. `laws` holds what is proved
//! of the library as a whole, and `bridge` the few statements that are taken on
//! trust.

pub mod args;
pub mod bridge;
pub mod colors;
pub mod convert;
pub mod laws;
pub mod round_trip;
pub mod text;
pub mod theme_creator;
pub mod theme_parser;
