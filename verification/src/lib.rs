//! A line-oriented store of to-do entries.
//!
//! The store is one text file with one entry per line. An entry has a
//! completion flag, an urgency flag and a text, and is addressed by its
//! position in the file. Every edit reads the whole text, changes the list of
//! entries, and writes the whole text anew.
//!
//! - `record`: the entry, its mathematical view, and the errors;
//! - `codec`: the line that stands for an entry, and back;
//! - `engine`: the edits of a list of entries;
//! - `store`: the text of the file, read as a list and written from one;
//! - `command`: a request checked, and carried out on the text of the file;
//! - `display`: the rows of the listing;
//! - `path`: where the file lies;
//! - `text`: positions and counts of characters.
//!
//! This library touches no file. Its caller reads the text of the store
//! file, hands it to `command::execute`, and prints or writes what comes
//! back.

pub mod codec;
pub mod command;
pub mod display;
pub mod engine;
pub mod path;
pub mod record;
pub mod store;
pub mod text;
