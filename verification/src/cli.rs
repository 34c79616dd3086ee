//! The commands of the command line, as values.
use crate::sha::Sha;
use vstd::prelude::*;

verus! {

/// A command and its arguments.
#[derive(Debug)]
pub enum Command {
    Init,
    CatFile { part: String },
    HashObject { file: String },
    LsTree { name_only: bool, sha: Sha },
    WriteTree,
    CommitTree { sha: Sha, commit_sha: Sha, message: String },
}

/// A parsed command line.
#[derive(Debug)]
pub struct Cli {
    pub command: Command,
}

} // verus!
