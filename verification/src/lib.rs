//! The editing engine of a modal, terminal-based text editor: a line-based
//! document model, the screen-relative and document-absolute coordinate
//! systems, viewport scrolling, navigation primitives and an undo history.
//!
//! The library does no input or output. It is told of keys, mouse events
//! and the size of the terminal, changes its state, and says what is left to
//! do on disk; what it shows is handed out as text.
//!
//! - [`indexing`]: row indices and line numbers.
//! - [`text`]: grapheme clusters and the other facts about Unicode text that
//!   everything else is stated over.
//! - [`row`], [`document`]: the text, and the operations that change it.
//! - [`navigator`]: searches for words, paragraphs and matching brackets.
//! - [`history`]: the log of edits and their reversal.
//! - [`viewport`]: the rules that move the cursor and scroll the screen.
//! - [`model`]: what every command of the editor does, over plain values.
//! - [`editor`], [`dispatch`]: the editor, and how keys become commands.
//! - [`screen`], [`status`], [`help`]: what the screen shows.

pub mod commands;
pub mod config;
pub mod console;
pub mod dispatch;
pub mod document;
pub mod editor;
pub mod help;
pub mod history;
pub mod indexing;
pub mod mode;
pub mod model;
pub mod navigator;
pub mod row;
pub mod screen;
pub mod status;
pub mod terminal;
pub mod text;
pub mod utils;
pub mod viewport;

pub use commands::Commands;
pub use config::Config;
pub use console::ConsoleSize;
pub use document::Document;
pub use editor::{Editor, Position, ViewportOffset};
pub use help::{Help, Section};
pub use indexing::{LineNumber, RowIndex};
pub use mode::Mode;
pub use navigator::{Boundary, Navigator};
pub use row::Row;
pub use terminal::AnsiPosition;
