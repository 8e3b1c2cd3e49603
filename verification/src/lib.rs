//! Core of a terminal line editor: rows of grapheme clusters, a document of
//! rows, a cursor model over key intents, a minimal-scroll viewport, and a
//! renderer that produces the visible text lines. Terminal I/O lives outside
//! this crate; the logic here is verified.

mod document;
mod editor;
mod position;
mod row;
mod terminal;
mod text;

pub use document::Document;
pub use document::RangeError;
pub use editor::Editor;
pub use editor::KeyIntent;
pub use editor::StatusMessage;
pub use position::Position;
pub use row::Row;
pub use terminal::Size;
pub use terminal::Terminal;
