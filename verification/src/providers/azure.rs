//! Azure DevOps. Its repositories have an organization, a project and a name.

use vstd::prelude::*;

use crate::providers::error::ProviderError;
use crate::providers::types::{ProviderKind, RepoMeta};

verus! {

/// Azure DevOps.
#[derive(Debug, Clone, Copy)]
pub struct AzureDevOpsProvider;

impl AzureDevOpsProvider {
    pub fn new() -> (p: AzureDevOpsProvider)
        ensures
            p == AzureDevOpsProvider,
    {
        AzureDevOpsProvider
    }

    pub fn kind(&self) -> (k: ProviderKind)
        ensures
            k is AzureDevOps,
    {
        ProviderKind::AzureDevOps
    }

    pub fn display_name(&self) -> (r: &'static str)
        ensures
            r@ == "Azure DevOps"@,
    {
        "Azure DevOps"
    }

    pub fn default_ssh_host(&self) -> (r: &'static str)
        ensures
            r@ == "ssh.dev.azure.com"@,
    {
        "ssh.dev.azure.com"
    }

    pub fn api_base(&self) -> (out: String)
        ensures
            out@ == "https://dev.azure.com"@,
    {
        "https://dev.azure.com".to_string()
    }

    /// Repositories cannot be looked up here yet.
    pub fn discover_repo(&self) -> (r: Result<RepoMeta, ProviderError>)
        ensures
            r matches Err(ProviderError::NotImplemented(why)) && why@
                == "Azure DevOps requires org/project/repo — three-tier UI not yet built."@,
    {
        Err(
            ProviderError::NotImplemented(
                "Azure DevOps requires org/project/repo — three-tier UI not yet built.",
            ),
        )
    }
}

impl Default for AzureDevOpsProvider {
    fn default() -> (p: AzureDevOpsProvider)
        ensures
            p == AzureDevOpsProvider,
    {
        AzureDevOpsProvider::new()
    }
}

} // verus!
