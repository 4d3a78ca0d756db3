//! A collection of notes, kept as Markdown files in one directory.

use std::path::PathBuf;
use vstd::prelude::*;
use vstd::string::{StringExecFns, StringSliceAdditionalSpecFns};
use crate::error::Error;
use crate::id::{id_error, NoteID};
use crate::markdown::Markdown;
use crate::note::{Note, NoteMetadata};

verus! {

/// A path of the file system: nothing is known of what it holds.
#[verifier::external_type_specification]
#[verifier::external_body]
pub struct ExPathBuf(PathBuf);

/// A collection of notes, stored as Markdown files in a single directory.
pub struct LabBook {
    dir: PathBuf,
}

impl LabBook {
    /// The directory that holds the notes.
    pub closed spec fn directory(&self) -> PathBuf {
        self.dir
    }

    /// The book of the notes in the directory `dir`.
    pub fn new(dir: PathBuf) -> (book: LabBook)
        ensures
            book.directory() == dir,
    {
        LabBook { dir }
    }

    /// The directory that holds the notes.
    pub fn dir(&self) -> (dir: &PathBuf)
        ensures
            *dir == self.directory(),
    {
        &self.dir
    }

    /// The name of the file that holds the note `id`, inside the directory
    /// of a book: `{id}.md`.
    pub fn file_name(id: &NoteID) -> (name: String)
        ensures
            name@ == id@ + ".md"@,
    {
        let mut name = id.to_text();
        name.append(".md");
        name
    }

    /// The index page, given what reading `{dir}/index.md` gave.
    pub fn index(&self, contents: Option<String>) -> (found: Result<Note<'static>, Error>)
        ensures
            contents is None ==> found == Err::<Note<'static>, Error>(Error::NotFound),
            contents matches Some(text) ==> found matches Ok(note) && note.id@ == "index"@
                && note.body == Markdown(text),
    {
        proof {
            reveal_strlit("index");
            let bytes = "index".spec_bytes();
            vstd::string::is_ascii_spec_bytes("index");
            assert(vstd::utf8::is_ascii_chars("index"@));
            assert(bytes.len() == 5);
            assert(id_error(bytes) is None);
        }
        match NoteID::try_from("index") {
            Ok(id) => self.note(id, contents),
            Err(error) => Err(error),
        }
    }

    /// The page `id`, given what reading `{dir}/{id}.md` gave.
    pub fn note<'a>(&self, id: NoteID<'a>, contents: Option<String>) -> (found: Result<
        Note<'a>,
        Error,
    >)
        ensures
            contents is None ==> found == Err::<Note<'a>, Error>(Error::NotFound),
            contents matches Some(text) ==> found == Ok::<Note<'a>, Error>(
                Note { id, header: NoteMetadata, body: Markdown(text) },
            ),
    {
        Note::load(id, contents)
    }
}

} // verus!
