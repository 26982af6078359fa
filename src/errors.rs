use vstd::prelude::*;

verus! {

/// What can go wrong while working with a `Kasten` or a `Zettel`.
#[derive(Debug, PartialEq, Eq)]
pub enum AppError {
    /// Reading or writing a file failed.
    IOError { path: String, message: String },
    /// Data could not be encoded, or what was read does not describe a valid store or note.
    SerializationError { message: String },
    /// A referenced note does not exist.
    ZettelDoesntExistsError,
    /// A note with the same identifier already exists.
    ZettelExistsError,
}

} // verus!
