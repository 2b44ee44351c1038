//! Bitbucket.

use vstd::prelude::*;

use crate::providers::error::ProviderError;
use crate::providers::types::{ProviderKind, RepoMeta};

verus! {

/// Bitbucket.
#[derive(Debug, Clone, Copy)]
pub struct BitbucketProvider;

impl BitbucketProvider {
    pub fn new() -> (p: BitbucketProvider)
        ensures
            p == BitbucketProvider,
    {
        BitbucketProvider
    }

    pub fn kind(&self) -> (k: ProviderKind)
        ensures
            k is Bitbucket,
    {
        ProviderKind::Bitbucket
    }

    pub fn display_name(&self) -> (r: &'static str)
        ensures
            r@ == "Bitbucket"@,
    {
        "Bitbucket"
    }

    pub fn default_ssh_host(&self) -> (r: &'static str)
        ensures
            r@ == "bitbucket.org"@,
    {
        "bitbucket.org"
    }

    pub fn api_base(&self) -> (out: String)
        ensures
            out@ == "https://api.bitbucket.org/2.0"@,
    {
        "https://api.bitbucket.org/2.0".to_string()
    }

    /// Repositories cannot be looked up here yet.
    pub fn discover_repo(&self) -> (r: Result<RepoMeta, ProviderError>)
        ensures
            r matches Err(ProviderError::NotImplemented(why)) && why@
                == "Bitbucket discover_repo is not yet wired up; use Clone-by-URL instead."@,
    {
        Err(
            ProviderError::NotImplemented(
                "Bitbucket discover_repo is not yet wired up; use Clone-by-URL instead.",
            ),
        )
    }
}

impl Default for BitbucketProvider {
    fn default() -> (p: BitbucketProvider)
        ensures
            p == BitbucketProvider,
    {
        BitbucketProvider::new()
    }
}

} // verus!
