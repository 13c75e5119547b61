//! What is known of a project and its branches, and what can go wrong with them.

use crate::text::{joined, joined3};
use vstd::prelude::*;
use vstd::string::*;

verus! {

/// How a branch stands to the documents that it needs.
#[derive(Clone, Copy, Debug, PartialEq, Eq, Structural)]
pub enum CanonicalBranchStatus {
    Pending,
    BranchNotIngested,
    BinaryDocNotFound,
    Healthy,
}

/// Waiting for a branch to be ready failed.
#[derive(Debug)]
pub enum ShadowDocWaitError {
    BranchNotIngested,
    /// Nobody will tell of the branch any more, for this reason.
    Watch(String),
}

impl ShadowDocWaitError {
    /// The message for the error.
    pub fn to_text(&self) -> (r: String)
        ensures
            r@ == match *self {
                ShadowDocWaitError::BranchNotIngested => "the branch wasn't ingested"@,
                ShadowDocWaitError::Watch(reason) => "tokio error: "@ + reason@,
            },
    {
        match self {
            ShadowDocWaitError::BranchNotIngested => "the branch wasn't ingested".to_owned(),
            ShadowDocWaitError::Watch(reason) => joined("tokio error: ", reason.as_str()),
        }
    }
}

/// Something is wrong with the project's documents. Ids and points in history are held as they
/// are shown.
#[derive(Debug)]
pub enum DbError {
    NoMetadataState,
    NoBranch(String),
    BadBranchState(String, String),
    BadBranchDocument(String, String),
    ShadowDocNotInitialized,
    Thread(String),
    RepoStopped(String),
    Automerge(String),
    Hydrate(String),
    Reconcile(String),
    InvalidRef(String),
    NoFilters,
}

/// The message for an error.
pub open spec fn db_error_text(error: DbError) -> Seq<char> {
    match error {
        DbError::NoMetadataState => "there was no loaded metadata state"@,
        DbError::NoBranch(id) => "there was no branch matching the id "@ + id@,
        DbError::BadBranchState(id, why) => "the branch state of id "@ + id@ + " is wrong ("@ + (
        why@ + ")"@),
        DbError::BadBranchDocument(at, why) => "bad branch document at ref "@ + at@ + " ("@ + (why@
            + ")"@),
        DbError::ShadowDocNotInitialized => "shadow doc isn't initialized"@,
        DbError::Thread(why) => "there was an issue with threading: "@ + why@,
        DbError::RepoStopped(why) => why@,
        DbError::Automerge(why) => why@,
        DbError::Hydrate(why) => why@,
        DbError::Reconcile(why) => why@,
        DbError::InvalidRef(at) => "the provided ref was invalid: "@ + at@,
        DbError::NoFilters => "there were no provided file filters"@,
    }
}

impl DbError {
    /// The message for the error.
    pub fn to_text(&self) -> (r: String)
        ensures
            r@ == db_error_text(*self),
    {
        match self {
            DbError::NoMetadataState => "there was no loaded metadata state".to_owned(),
            DbError::NoBranch(id) => joined("there was no branch matching the id ", id.as_str()),
            DbError::BadBranchState(id, why) => {
                let head = joined3("the branch state of id ", id.as_str(), " is wrong (");
                let tail = joined(why.as_str(), ")");
                joined(head.as_str(), tail.as_str())
            },
            DbError::BadBranchDocument(at, why) => {
                let head = joined3("bad branch document at ref ", at.as_str(), " (");
                let tail = joined(why.as_str(), ")");
                joined(head.as_str(), tail.as_str())
            },
            DbError::ShadowDocNotInitialized => "shadow doc isn't initialized".to_owned(),
            DbError::Thread(why) => joined("there was an issue with threading: ", why.as_str()),
            DbError::RepoStopped(why) => why.clone(),
            DbError::Automerge(why) => why.clone(),
            DbError::Hydrate(why) => why.clone(),
            DbError::Reconcile(why) => why.clone(),
            DbError::InvalidRef(at) => joined("the provided ref was invalid: ", at.as_str()),
            DbError::NoFilters => "there were no provided file filters".to_owned(),
        }
    }
}

/// The project's directory and the name of the user.
#[derive(Debug)]
pub struct BranchDb {
    project_dir: String,
    username: Option<String>,
}

impl BranchDb {
    /// The directory that the project is in.
    pub closed spec fn dir(&self) -> Seq<char> {
        self.project_dir@
    }

    /// The name under which the user's changes are kept.
    pub closed spec fn user(&self) -> Option<Seq<char>> {
        match self.username {
            Some(name) => Some(name@),
            None => None,
        }
    }

    pub fn new(project_dir: String) -> (r: BranchDb)
        ensures
            r.dir() == project_dir@,
            r.user() is None,
    {
        BranchDb { project_dir, username: None }
    }

    pub fn get_project_dir(&self) -> (r: String)
        ensures
            r@ == self.dir(),
    {
        self.project_dir.clone()
    }

    pub fn set_username(&mut self, username: Option<String>)
        ensures
            final(self).dir() == old(self).dir(),
            final(self).user() == (match username {
                Some(name) => Some(name@),
                None => None,
            }),
    {
        self.username = username;
    }

    /// The name under which the user's changes are kept.
    pub fn username(&self) -> (r: Option<&String>)
        ensures
            (match r {
                Some(name) => Some(name@),
                None => None,
            }) == self.user(),
    {
        match &self.username {
            Some(name) => Some(name),
            None => None,
        }
    }
}


/// What an error is about stands in its message.
pub proof fn messages_hold_what_they_are_about(about: String, why: String)
    ensures
        db_error_text(DbError::NoMetadataState) == "there was no loaded metadata state"@,
        db_error_text(DbError::NoBranch(about)) == "there was no branch matching the id "@ + about@,
        db_error_text(DbError::BadBranchState(about, why)) == "the branch state of id "@ + about@
            + " is wrong ("@ + why@ + ")"@,
        db_error_text(DbError::BadBranchDocument(about, why)) == "bad branch document at ref "@
            + about@ + " ("@ + why@ + ")"@,
        db_error_text(DbError::ShadowDocNotInitialized) == "shadow doc isn't initialized"@,
        db_error_text(DbError::Thread(why)) == "there was an issue with threading: "@ + why@,
        db_error_text(DbError::RepoStopped(why)) == why@,
        db_error_text(DbError::Automerge(why)) == why@,
        db_error_text(DbError::Hydrate(why)) == why@,
        db_error_text(DbError::Reconcile(why)) == why@,
        db_error_text(DbError::InvalidRef(about)) == "the provided ref was invalid: "@ + about@,
        db_error_text(DbError::NoFilters) == "there were no provided file filters"@,
{
    assert("the branch state of id "@ + about@ + " is wrong ("@ + (why@ + ")"@)
        == "the branch state of id "@ + about@ + " is wrong ("@ + why@ + ")"@);
    assert("bad branch document at ref "@ + about@ + " ("@ + (why@ + ")"@)
        == "bad branch document at ref "@ + about@ + " ("@ + why@ + ")"@);
}

} // verus!
