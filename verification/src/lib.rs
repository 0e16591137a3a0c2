//! Local-first synchronization engine for a study database.
//!
//! The library models the device-local store of four record collections
//! (topics, questions, progress, quiz sessions), each row carrying a
//! revision counter, a confirmation timestamp, and a soft-delete flag.
//! It provides the change collector, the remote-change applier, the
//! acknowledgement processor, and the checkpoint manager that together
//! form one synchronization cycle against a remote delta service.

use vstd::prelude::*;

pub mod apply;
pub mod codec;
pub mod collect;
pub mod confirm;
pub mod cycle;
pub mod ids;
pub mod importer;
pub mod index;
pub mod jsondb;
pub mod laws;
pub mod markdown;
pub mod models;
pub mod quiz;
pub mod record;
pub mod reports;
pub mod row;
pub mod slug;
pub mod store;
pub mod timefmt;

verus! {

use vstd::string::StringExecFns;

/// Relies on `String::push`: appends exactly one character.
#[verifier::external_body]
pub(crate) fn push_char(s: &mut String, c: char)
    ensures
        final(s)@ == old(s)@.push(c),
{
    s.push(c)
}

/// Compares an owned string against a literal by content.
pub fn str_eq(a: &String, b: &str) -> (r: bool)
    ensures
        r == (a@ == b@),
{
    let bs = String::from_str(b);
    a.eq(&bs)
}

/// The four synchronized record collections.
///
/// Topics are the ownership root; questions belong to a topic; progress
/// rows and quiz sessions are the leaves.
#[derive(Clone, Copy, Debug, PartialEq, Eq, Structural)]
pub enum Collection {
    Topics,
    Questions,
    Progress,
    QuizSessions,
}

impl Collection {
    /// Rank used to order upserts: referents before referencing rows.
    pub open spec fn upsert_rank(self) -> int {
        match self {
            Collection::Topics => 0,
            Collection::Questions => 1,
            Collection::Progress => 2,
            Collection::QuizSessions => 2,
        }
    }

    /// Rank used to order hard deletes: referencing rows before referents.
    pub open spec fn delete_rank(self) -> int {
        match self {
            Collection::Topics => 2,
            Collection::Questions => 1,
            Collection::Progress => 0,
            Collection::QuizSessions => 0,
        }
    }
}

} // verus!
