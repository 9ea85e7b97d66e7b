//! Vietnamese input method engine.
//!
//! The crate turns a stream of Latin key events into Vietnamese text with
//! the correct diacritics, following either the Telex or the VNI typing
//! convention. A host feeds it one key at a time and applies the edit it
//! gets back, a number of characters to delete and a text to insert, to
//! the text field in focus.
//!
//! - [`data`] holds the key identifiers, the character tables, the
//!   phonology and the English word list.
//! - [`engine`] holds the buffer, the syllable parser, the
//!   transformations and the state machine with its model and laws.
//! - [`input`] holds the two input methods.
//! - [`settings`] holds the settings and their persisted form.
//! - [`keymap`] and [`host`] connect a Linux host to the engine.
//!
//! Every function is verified against a mathematical model of the data
//! it works on.

pub mod data;
pub mod engine;
pub mod host;
pub mod input;
pub mod keymap;
pub mod settings;
pub mod utils;
