//! A host that is known by its name alone.

use vstd::prelude::*;

use crate::providers::address::{clone_https, clone_ssh, https_address, ssh_address};
use crate::providers::types::{ProviderKind, RepoMeta};

verus! {

/// Any other host.
#[derive(Debug, Clone)]
pub struct GenericProvider {
    pub host: String,
}

impl GenericProvider {
    pub fn new(host: &str) -> (p: GenericProvider)
        ensures
            p.host@ == host@,
    {
        GenericProvider { host: host.to_string() }
    }

    pub fn kind(&self) -> (k: ProviderKind)
        ensures
            k matches ProviderKind::Generic { host } && host@ == self.host@,
    {
        ProviderKind::Generic { host: self.host.clone() }
    }

    pub fn display_name(&self) -> (r: &'static str)
        ensures
            r@ == "Generic"@,
    {
        "Generic"
    }

    pub fn default_ssh_host(&self) -> (r: &'static str)
        ensures
            r@ == ""@,
    {
        ""
    }

    pub fn api_base(&self) -> (out: String)
        ensures
            out@ == "https://"@ + self.host@,
    {
        let mut out: String = "https://".to_string();
        out.append(self.host.as_str());
        out
    }

    /// A repository, as far as its name tells: nobody can be asked.
    pub fn discover_repo(&self, owner: &str, repo: &str) -> (m: RepoMeta)
        ensures
            m.owner@ == owner@,
            m.repo@ == repo@,
            m.default_branch@ == "main"@,
            m.description is None,
            !m.private,
            m.clone_https@ == https_address(self.host@, owner@, repo@),
            m.clone_ssh@ == ssh_address(self.host@, owner@, repo@),
    {
        RepoMeta {
            clone_https: clone_https(self.host.as_str(), owner, repo),
            clone_ssh: clone_ssh(self.host.as_str(), owner, repo),
            default_branch: "main".to_string(),
            description: None,
            private: false,
            owner: owner.to_string(),
            repo: repo.to_string(),
        }
    }
}

} // verus!
