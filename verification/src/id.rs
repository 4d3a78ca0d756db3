//! Identifiers of notes.

use std::borrow::Cow;
use vstd::prelude::*;
use vstd::std_specs::convert::TryFromSpecImpl;
use vstd::string::StringSliceAdditionalSpecFns;
use crate::error::Error;

verus! {

/// The greatest length of an identifier, in bytes.
pub const MAX_SIZE: usize = 128;

/// Whether `b` may stand in an identifier: an ASCII letter or digit, `-`
/// or `_`.
pub open spec fn allowed_byte(b: u8) -> bool {
    ||| 0x61 <= b <= 0x7a
    ||| 0x41 <= b <= 0x5a
    ||| 0x30 <= b <= 0x39
    ||| b == 0x2d
    ||| b == 0x5f
}

/// What is wrong with the identifier whose UTF-8 bytes are `bytes`, if
/// anything: its length is looked at first, then its characters.
pub open spec fn id_error(bytes: Seq<u8>) -> Option<Error> {
    if bytes.len() > MAX_SIZE || bytes.len() < 1 {
        Some(Error::InvalidLength)
    } else if exists|i: int| 0 <= i < bytes.len() && !allowed_byte(#[trigger] bytes[i]) {
        Some(Error::InvalidCharacter)
    } else {
        None
    }
}

/// Whether `b` may stand in an identifier.
fn is_allowed(b: u8) -> (allowed: bool)
    ensures
        allowed == allowed_byte(b),
{
    (0x61 <= b && b <= 0x7a) || (0x41 <= b && b <= 0x5a) || (0x30 <= b && b <= 0x39) || b == 0x2d
        || b == 0x5f
}

/// Checks `string` as an identifier.
fn check_id(string: &str) -> (found: Option<Error>)
    ensures
        found == id_error(string.spec_bytes()),
{
    let bytes = string.as_bytes();
    if bytes.len() > MAX_SIZE || bytes.len() < 1 {
        return Some(Error::InvalidLength);
    }
    let mut i: usize = 0;
    while i < bytes.len()
        invariant
            i <= bytes.len(),
            bytes@ == string.spec_bytes(),
            1 <= bytes.len() <= MAX_SIZE,
            forall|j: int| 0 <= j < i ==> allowed_byte(#[trigger] bytes@[j]),
        decreases bytes.len() - i,
    {
        if !is_allowed(bytes[i]) {
            return Some(Error::InvalidCharacter);
        }
        i += 1;
    }
    None
}

/// The identifier of a note: the note `id` is the file `{id}.md`. It holds
/// between 1 and 128 characters, each a letter or digit of ASCII, `-` or `_`.
#[derive(Debug)]
pub struct NoteID<'a>(Cow<'a, str>);

impl<'a> View for NoteID<'a> {
    type V = Seq<char>;

    closed spec fn view(&self) -> Seq<char> {
        self.0@
    }
}

impl<'a> NoteID<'a> {
    #[verifier::type_invariant]
    closed spec fn valid(&self) -> bool {
        id_error(vstd::utf8::encode_utf8(self.0@)) is None
    }

    /// The identifier as text, which is that of a valid identifier.
    pub fn as_str(&self) -> (text: &str)
        ensures
            text@ == self@,
            id_error(text.spec_bytes()) is None,
    {
        proof {
            use_type_invariant(self);
        }
        match &self.0 {
            Cow::Borrowed(borrowed) => borrowed,
            Cow::Owned(owned) => owned.as_str(),
        }
    }

    /// A copy of the identifier as text.
    pub fn to_text(&self) -> (text: String)
        ensures
            text@ == self@,
    {
        self.as_str().to_owned()
    }
}

impl<'a> TryFrom<&'a str> for NoteID<'a> {
    type Error = Error;

    /// The identifier `string`, or what is wrong with it.
    fn try_from(string: &'a str) -> (ret: Result<Self, Error>)
        ensures
            id_error(string.spec_bytes()) matches Some(error) ==> ret == Err::<Self, Error>(error),
            id_error(string.spec_bytes()) is None ==> ret is Ok && ret->Ok_0@ == string@,
    {
        match check_id(string) {
            Some(error) => Err(error),
            None => Ok(NoteID(Cow::Borrowed(string))),
        }
    }
}

impl<'a> TryFromSpecImpl<&'a str> for NoteID<'a> {
    open spec fn obeys_try_from_spec() -> bool {
        true
    }

    closed spec fn try_from_spec(string: &'a str) -> Result<Self, Error> {
        match id_error(string.spec_bytes()) {
            Some(error) => Err(error),
            None => Ok(NoteID(Cow::Borrowed(string))),
        }
    }
}

impl TryFrom<String> for NoteID<'static> {
    type Error = Error;

    /// The identifier `string`, or what is wrong with it.
    fn try_from(string: String) -> (ret: Result<Self, Error>)
        ensures
            id_error(vstd::utf8::encode_utf8(string@)) matches Some(error) ==> ret == Err::<
                Self,
                Error,
            >(error),
            id_error(vstd::utf8::encode_utf8(string@)) is None ==> ret is Ok && ret->Ok_0@
                == string@,
    {
        match check_id(string.as_str()) {
            Some(error) => Err(error),
            None => Ok(NoteID(Cow::Owned(string))),
        }
    }
}

impl TryFromSpecImpl<String> for NoteID<'static> {
    open spec fn obeys_try_from_spec() -> bool {
        true
    }

    closed spec fn try_from_spec(string: String) -> Result<Self, Error> {
        match id_error(vstd::utf8::encode_utf8(string@)) {
            Some(error) => Err(error),
            None => Ok(NoteID(Cow::Owned(string))),
        }
    }
}

} // verus!
