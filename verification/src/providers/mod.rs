//! The hosts of remote repositories: who they are, how they are asked, and
//! what their answers mean.

pub mod address;
pub mod azure;
pub mod bitbucket;
pub mod ci_status;
pub mod error;
pub mod generic;
pub mod gitea;
pub mod github;
pub mod gitlab;
pub mod laws;
pub mod oauth;
pub mod pat;
pub mod registry;
pub mod ssh;
pub mod types;

pub use azure::AzureDevOpsProvider;
pub use bitbucket::BitbucketProvider;
pub use error::{ProviderError, ProviderResult};
pub use generic::GenericProvider;
pub use gitea::GiteaProvider;
pub use github::GitHubProvider;
pub use gitlab::GitLabProvider;
pub use registry::build;
