//! The in-memory state of the flat-file database variants.
//!
//! The single-file database holds all topics and questions in one
//! document; the lazy variant keeps an index and loads each topic's
//! questions on demand, governed by `LazyDbConfig`. Reading files,
//! writing them back, and locking are the embedding application's
//! concern; this module owns the data between those moments.

use vstd::prelude::*;

verus! {

use vstd::string::StringExecFns;

use crate::models::{Question, Topic};

/// The whole single-file database document.
#[derive(Clone, Debug, PartialEq)]
pub struct DatabaseData {
    pub version: String,
    pub topics: Vec<Topic>,
    pub questions: Vec<Question>,
}

impl Default for DatabaseData {
    fn default() -> (r: Self)
        ensures
            r.version@ == "1.0"@,
            r.topics@.len() == 0,
            r.questions@.len() == 0,
    {
        DatabaseData {
            version: String::from_str("1.0"),
            topics: Vec::new(),
            questions: Vec::new(),
        }
    }
}

/// The single-file database held in memory, with the path it was
/// loaded from and whether mutations should be persisted eagerly.
#[derive(Clone, Debug, PartialEq)]
pub struct JsonDatabase {
    pub data: DatabaseData,
    pub file_path: String,
    pub auto_save: bool,
}

impl JsonDatabase {
    /// Wraps loaded data for the given file path.
    pub fn new(data: DatabaseData, file_path: String, auto_save: bool) -> (r: Self)
        ensures
            r.data == data,
            r.file_path@ == file_path@,
            r.auto_save == auto_save,
    {
        JsonDatabase { data, file_path, auto_save }
    }

    /// Read access to the database document.
    pub fn read(&self) -> (r: &DatabaseData)
        ensures
            *r == self.data,
    {
        &self.data
    }

    /// Write access to the database document.
    pub fn write(&mut self) -> (r: &mut DatabaseData)
        ensures
            *r == old(self).data,
            final(self).data == *final(r),
            final(self).file_path == old(self).file_path,
            final(self).auto_save == old(self).auto_save,
    {
        &mut self.data
    }

    /// Whether the document should be persisted now, after a mutation:
    /// the caller saves when this says so. (Persisting is file I/O and
    /// lives with the embedding application.)
    pub fn auto_save(&self) -> (r: bool)
        ensures
            r == self.auto_save,
    {
        self.auto_save
    }

    /// The path the document was loaded from and is saved back to.
    pub fn file_path(&self) -> (r: &String)
        ensures
            r@ == self.file_path@,
    {
        &self.file_path
    }
}

/// Configuration of the lazy, indexed database variant.
#[derive(Clone, Debug, PartialEq)]
pub struct LazyDbConfig {
    /// How many topics' question files to keep cached in memory.
    pub cache_capacity: usize,
    /// Whether to persist eagerly after each mutation.
    pub auto_save: bool,
}

impl Default for LazyDbConfig {
    fn default() -> (r: Self)
        ensures
            r.cache_capacity == 10,
            r.auto_save,
    {
        LazyDbConfig { cache_capacity: 10, auto_save: true }
    }
}

} // verus!
