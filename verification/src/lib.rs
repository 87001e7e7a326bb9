//! A minimal line-oriented text editor core: a document held as a vector of
//! lines, a cursor and scroll model, and the keystroke state machine that
//! edits the document while keeping every index in bounds.

pub mod document;
pub mod editor;
pub mod position;
pub mod text;

pub use document::Document;
pub use editor::Editor;
pub use editor::Key;
pub use position::Position;
