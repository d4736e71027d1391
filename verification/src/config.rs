//! What the two configuration lists share: what their backing file was
//! found to hold, what a load gives, and what a save writes.

use vstd::prelude::*;

verus! {

/// What the backing file of a list was found to hold.
pub enum Stored<T> {
    /// There is no backing file.
    Missing,
    /// There is one, and it could not be read as a list.
    Corrupt,
    /// There is one, and it holds this list.
    List(Vec<T>),
}

/// What a load gives.
pub struct Loaded<T> {
    /// The list to work with.
    pub list: Vec<T>,
    /// Whether the list is to be saved at once, because no backing file
    /// held it.
    pub persist: bool,
}

/// Why a load gave no list.
#[derive(Debug, PartialEq, Eq, Clone, Copy)]
pub enum ConfigError {
    /// There is a backing file, and it could not be read as a list.
    Corrupt,
}

/// Loads a list, given what its backing file was found to hold and the
/// list to start with where there is no file: the file's list, unchanged;
/// the list to start with, to be saved at once; or the error that says that
/// the file is corrupt.
pub fn load<T>(stored: Stored<T>, defaults: Vec<T>) -> (res: Result<Loaded<T>, ConfigError>)
    ensures
        match stored {
            Stored::Missing => res is Ok && res->Ok_0 == (Loaded { list: defaults, persist: true }),
            Stored::Corrupt => res is Err && res->Err_0 == ConfigError::Corrupt,
            Stored::List(list) => res is Ok && res->Ok_0 == (Loaded { list, persist: false }),
        },
{
    match stored {
        Stored::Missing => Ok(Loaded { list: defaults, persist: true }),
        Stored::Corrupt => Err(ConfigError::Corrupt),
        Stored::List(list) => Ok(Loaded { list, persist: false }),
    }
}

/// Loads a list as `load` does, but takes a corrupt file for an empty list:
/// nothing tells the caller of it, and nothing is saved.
pub fn load_or_empty<T>(stored: Stored<T>, defaults: Vec<T>) -> (loaded: Loaded<T>)
    ensures
        match stored {
            Stored::Missing => loaded == (Loaded { list: defaults, persist: true }),
            Stored::Corrupt => loaded.list@.len() == 0 && !loaded.persist,
            Stored::List(list) => loaded == (Loaded { list, persist: false }),
        },
{
    match load(stored, defaults) {
        Ok(loaded) => loaded,
        Err(_) => Loaded { list: Vec::new(), persist: false },
    }
}

/// The text that a save writes over the backing file: the serialized list,
/// or nothing at all where the list could not be serialized.
pub open spec fn written(serialized: Option<String>) -> Seq<char> {
    match serialized {
        Some(s) => s@,
        None => Seq::empty(),
    }
}

/// Computes `written`.
pub fn text_to_write(serialized: Option<String>) -> (text: String)
    ensures
        text@ == written(serialized),
{
    match serialized {
        Some(s) => s,
        None => String::new(),
    }
}

} // verus!
