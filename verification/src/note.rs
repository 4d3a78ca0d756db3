//! A lab note.

use vstd::prelude::*;
use crate::error::Error;
use crate::id::NoteID;
use crate::markdown::Markdown;

verus! {

/// What the header of a note declares.
#[derive(Debug)]
pub struct NoteMetadata;

/// A lab note: a header of metadata and a body of Markdown.
pub struct Note<'a> {
    pub id: NoteID<'a>,
    pub header: NoteMetadata,
    pub body: Markdown,
}

impl<'a> Note<'a> {
    /// The note `id`, given what reading its file gave: `None` where the
    /// file could not be read, and then there is no such note.
    pub fn load(id: NoteID<'a>, contents: Option<String>) -> (found: Result<Note<'a>, Error>)
        ensures
            contents is None ==> found == Err::<Note<'a>, Error>(Error::NotFound),
            contents matches Some(text) ==> found == Ok::<Note<'a>, Error>(
                Note { id, header: NoteMetadata, body: Markdown(text) },
            ),
    {
        match contents {
            Some(text) => Ok(Note { id, header: NoteMetadata, body: Markdown(text) }),
            None => Err(Error::NotFound),
        }
    }
}

} // verus!
