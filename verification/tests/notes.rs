use labnotes::book::LabBook;
use labnotes::error::Error;
use labnotes::id::NoteID;
use labnotes::note::Note;
use std::path::PathBuf;

#[test]
fn id_of_letters_digits_dash_and_underscore() {
    let id = NoteID::try_from("2020-05-01_Lab-notes").unwrap();
    assert_eq!(id.as_str(), "2020-05-01_Lab-notes");
    assert_eq!(id.to_text(), "2020-05-01_Lab-notes".to_string());
}

#[test]
fn id_from_an_owned_string() {
    let id = NoteID::try_from(String::from("index")).unwrap();
    assert_eq!(id.as_str(), "index");
}

#[test]
fn empty_id_has_invalid_length() {
    assert_eq!(NoteID::try_from("").unwrap_err(), Error::InvalidLength);
    assert_eq!(NoteID::try_from(String::new()).unwrap_err(), Error::InvalidLength);
}

#[test]
fn id_length_is_at_most_128() {
    let longest = "a".repeat(128);
    assert_eq!(NoteID::try_from(longest.as_str()).unwrap().as_str(), longest);
    let too_long = "a".repeat(129);
    assert_eq!(NoteID::try_from(too_long.as_str()).unwrap_err(), Error::InvalidLength);
    assert_eq!(NoteID::try_from(too_long).unwrap_err(), Error::InvalidLength);
}

#[test]
fn id_of_one_character() {
    assert_eq!(NoteID::try_from("a").unwrap().as_str(), "a");
    assert_eq!(NoteID::try_from("-").unwrap().as_str(), "-");
}

#[test]
fn id_with_other_characters_is_invalid() {
    for bad in ["a b", "a.md", "../x", "a/b", "caf\u{e9}", "a\n", "x!", "~", "[", "`", "@", "{"] {
        assert_eq!(NoteID::try_from(bad).unwrap_err(), Error::InvalidCharacter, "{:?}", bad);
    }
    assert_eq!(NoteID::try_from(String::from("a b")).unwrap_err(), Error::InvalidCharacter);
}

#[test]
fn every_allowed_character_is_accepted() {
    let all = "abcdefghijklmnopqrstuvwxyzABCDEFGHIJKLMNOPQRSTUVWXYZ0123456789-_";
    assert_eq!(NoteID::try_from(all).unwrap().as_str(), all);
}

#[test]
fn length_is_looked_at_before_characters() {
    let long_and_bad = "!".repeat(129);
    assert_eq!(NoteID::try_from(long_and_bad.as_str()).unwrap_err(), Error::InvalidLength);
}

#[test]
fn length_is_counted_in_bytes() {
    // 65 characters of two bytes each
    let wide = "\u{e9}".repeat(65);
    assert_eq!(NoteID::try_from(wide.as_str()).unwrap_err(), Error::InvalidLength);
    let narrow = "\u{e9}".repeat(64);
    assert_eq!(NoteID::try_from(narrow.as_str()).unwrap_err(), Error::InvalidCharacter);
}

#[test]
fn file_name_of_a_note() {
    let id = NoteID::try_from("lab-1").unwrap();
    assert_eq!(LabBook::file_name(&id), "lab-1.md");
}

#[test]
fn book_keeps_its_directory() {
    let book = LabBook::new(PathBuf::from("notes"));
    assert_eq!(book.dir(), &PathBuf::from("notes"));
}

#[test]
fn note_that_was_read() {
    let book = LabBook::new(PathBuf::from("notes"));
    let id = NoteID::try_from("lab-1").unwrap();
    let note = book.note(id, Some(String::from("# Title\n"))).unwrap();
    assert_eq!(note.id.as_str(), "lab-1");
    assert_eq!(note.body.0, "# Title\n");
}

#[test]
fn note_that_could_not_be_read() {
    let book = LabBook::new(PathBuf::from("notes"));
    let id = NoteID::try_from("lab-1").unwrap();
    assert_eq!(book.note(id, None).err(), Some(Error::NotFound));
}

#[test]
fn index_page() {
    let book = LabBook::new(PathBuf::from("notes"));
    let note = book.index(Some(String::from("welcome"))).unwrap();
    assert_eq!(note.id.as_str(), "index");
    assert_eq!(note.body.0, "welcome");
    assert_eq!(book.index(None).err(), Some(Error::NotFound));
}

#[test]
fn load_note() {
    let id = NoteID::try_from("a").unwrap();
    let note = Note::load(id, Some(String::new())).unwrap();
    assert_eq!(note.id.as_str(), "a");
    assert_eq!(note.body.0, "");
    let id = NoteID::try_from("a").unwrap();
    assert_eq!(Note::load(id, None).err(), Some(Error::NotFound));
}
