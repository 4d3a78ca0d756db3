//! Lab notes kept as Markdown files, rendered to LaTeX.

pub mod book;
pub mod decimal;
pub mod error;
pub mod escape;
pub mod event;
pub mod footnote;
pub mod id;
pub mod latex;
pub mod laws;
pub mod markdown;
pub mod math;
pub mod note;
pub mod parse;
pub mod reference;
pub mod writer;

pub use book::LabBook;
pub use error::Error;
pub use id::NoteID;
pub use markdown::Markdown;
pub use note::{Note, NoteMetadata};
