//! What a user can say on the command line.

use crate::server::{choice_of, choice_view, choose_resolver, ResolverChoice, ServerError};
use vstd::prelude::*;

verus! {

/// The command line as a whole.
#[derive(Debug, PartialEq, Eq)]
pub struct Cli {
    /// What to do.
    pub command: Command,
    /// Whether to say more than warnings.
    pub verbose: bool,
}

/// What to do.
#[derive(Debug, PartialEq, Eq)]
pub enum Command {
    /// Analyse an archive: list its domains with what is found of each.
    Analysis(AnalysisArg),
}

/// What an analysis is told.
#[derive(Debug, PartialEq, Eq)]
pub struct AnalysisArg {
    /// The path of the archive.
    pub har: String,
    /// The name server to ask, as `ip` or `ip:port`; the system's where
    /// none is given.
    pub dns: Option<String>,
    /// Whether to say more than warnings.
    pub verbose: bool,
}

impl AnalysisArg {
    /// What is written for the name server, as characters.
    pub open spec fn written(&self) -> Option<Seq<char>> {
        match self.dns {
            Some(text) => Some(text@),
            None => None,
        }
    }

    /// Whom this analysis asks for addresses; the error where the name
    /// server is not written well.
    pub fn resolver(&self) -> (r: Result<ResolverChoice, ServerError>)
        ensures
            choice_view(r) == choice_of(self.written()),
    {
        match &self.dns {
            Some(text) => choose_resolver(Some(text.as_str())),
            None => choose_resolver(None),
        }
    }
}

} // verus!
