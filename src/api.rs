//! Kinds of REST endpoints and the URL prefix each is mounted under.

use vstd::prelude::*;
use vstd::string::StringExecFns;

verus! {

/// The kind of an endpoint.
#[derive(Debug)]
pub enum ApiKind {
    /// Node metadata and the mempool.
    System,
    /// Blocks and transactions.
    Explorer,
    /// The endpoints of the named service.
    Service(&'static str),
}

/// The URL prefix of an endpoint kind.
pub open spec fn prefix_of(kind: ApiKind) -> Seq<char> {
    match kind {
        ApiKind::System => "api/system"@,
        ApiKind::Explorer => "api/explorer"@,
        ApiKind::Service(name) => "api/services/"@ + name@,
    }
}

impl ApiKind {
    /// Returns the URL prefix of this endpoint kind.
    pub fn into_prefix(self) -> (r: String)
        ensures
            r@ == prefix_of(self),
    {
        match self {
            ApiKind::System => "api/system".to_owned(),
            ApiKind::Explorer => "api/explorer".to_owned(),
            ApiKind::Service(name) => {
                let mut prefix = "api/services/".to_owned();
                prefix.append(name);
                prefix
            },
        }
    }
}

} // verus!
