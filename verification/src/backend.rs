//! Where the explorer's answers come from: a database directory opened in this process, or a running
//! daemon.

use vstd::prelude::*;

use crate::text;

verus! {

/// How many narrower windows a search for traces tries after its window held too many.
pub const TRACE_NARROW_STEPS: usize = 6;

/// The explorer's data source. The application holds the connection; this says what it is one to.
#[derive(Debug)]
pub enum Backend {
    /// A database directory, opened read-only in this process.
    Local,
    /// A running daemon, reached at a URL.
    Remote(String),
}

impl Backend {
    /// What the session reads.
    pub open spec fn description(self) -> Seq<char> {
        match self {
            Backend::Local => "local database"@,
            Backend::Remote(url) => url@,
        }
    }

    /// What this session reads, for the banner.
    pub fn describe(&self) -> (r: String)
        ensures
            r@ == self.description(),
    {
        match self {
            Backend::Local => text::owned("local database"),
            Backend::Remote(url) => url.clone(),
        }
    }

    /// Whether answers include what a live writer has not sealed yet: only a daemon sees that.
    pub fn sees_live_buffer(&self) -> (r: bool)
        ensures
            r == (self is Remote),
    {
        match self {
            Backend::Local => false,
            Backend::Remote(_) => true,
        }
    }

    /// Whether the session can change the promoted keys: a directory is opened read-only, so only the
    /// daemon that owns it can.
    pub fn can_promote(&self) -> (r: bool)
        ensures
            r == (self is Remote),
    {
        match self {
            Backend::Local => false,
            Backend::Remote(_) => true,
        }
    }
}

} // verus!
