//! Verified core of a partitioned collection exporter.
//!
//! The library holds the logic of a bulk-export pipeline: per-partition
//! pagination sessions against a search cluster, bulk-format rendering of the
//! returned hits, consolidation of per-partition shard files into one combined
//! artifact, streaming compression, and upload gating with cleanup. Network
//! and file I/O live outside the library; the functions here take plain
//! values, decide and format, and state what they do in contracts.

use vstd::prelude::*;

pub mod coordinator;
pub mod encode;
pub mod errors;
pub mod gzip;
pub mod lines;
pub mod names;
pub mod parse;
pub mod record;
pub mod session;

verus! {

/// Basic-auth credentials for the search cluster: immutable, cloned per
/// partition session, never rendered into any output of the library.
#[derive(Clone)]
pub struct Credentials {
    username: String,
    password: String,
}

impl Credentials {
    /// The principal, as contracts see it.
    pub closed spec fn spec_username(&self) -> Seq<char> {
        self.username@
    }

    /// The secret, as contracts see it.
    pub closed spec fn spec_password(&self) -> Seq<char> {
        self.password@
    }

    pub fn new(username: String, password: String) -> (c: Credentials)
        ensures
            c.spec_username() == username@,
            c.spec_password() == password@,
    {
        Credentials { username, password }
    }

    pub fn username(&self) -> (r: &String)
        ensures
            r@ == self.spec_username(),
    {
        &self.username
    }

    pub fn password(&self) -> (r: &String)
        ensures
            r@ == self.spec_password(),
    {
        &self.password
    }
}

} // verus!
