//! The tokens of accounts.
//!
//! There is one store, which is set up when the program starts. Before that,
//! no token is found, and none can be kept or deleted.

use vstd::prelude::*;

use crate::providers::types::{AccountId, ProviderKind};
use crate::secrets::{
    entry_views, lookup, pat_credential, FileStoreDoc, Key, SecretStore, StoreError,
};
use crate::text::opt_view;

verus! {

/// The key of an account's token.
pub open spec fn key_of(account: AccountId) -> Key {
    (account.service(), account.user())
}

/// Whether a store that is there is a valid one.
pub open spec fn store_wf(store: Option<SecretStore>) -> bool {
    store matches Some(s) ==> s.wf()
}

/// The outcome of a change, given that of writing the file: without a store
/// there is none.
pub open spec fn change_outcome(
    store: Option<SecretStore>,
    outcome: Result<(), StoreError>,
) -> Result<(), StoreError> {
    if store is Some {
        outcome
    } else {
        Err(StoreError::NotInitialised)
    }
}

/// Keeps the token of an account once it was written to the file.
pub fn store_pat(
    store: &mut Option<SecretStore>,
    account: &AccountId,
    token: &str,
    outcome: Result<(), StoreError>,
) -> (r: Result<(), StoreError>)
    requires
        store_wf(*old(store)),
    ensures
        store_wf(*final(store)),
        r == change_outcome(*old(store), outcome),
        (*final(store)) is Some == (*old(store)) is Some,
        (*old(store)) matches Some(before) ==> ((*final(store)) matches Some(after) && after@ == (if outcome
            is Ok {
            before@.insert(key_of(*account), token@)
        } else {
            before@
        })),
{
    match store {
        Some(s) => s.save(&pat_credential(account), token, outcome),
        None => Err(StoreError::NotInitialised),
    }
}

/// The token of an account: from memory, or else from the file.
pub fn load_pat(
    store: &mut Option<SecretStore>,
    account: &AccountId,
    file: &FileStoreDoc,
) -> (out: Option<String>)
    requires
        store_wf(*old(store)),
    ensures
        store_wf(*final(store)),
        (*old(store)) is None ==> out is None && (*final(store)) is None,
        (*old(store)) matches Some(before) ==> {
            &&& opt_view(out) == (if before@.contains_key(key_of(*account)) {
                Some(before@[key_of(*account)])
            } else {
                lookup(entry_views(file.entries@), key_of(*account))
            })
            &&& (*final(store)) matches Some(after) && after@ == (match opt_view(out) {
                Some(value) => before@.insert(key_of(*account), value),
                None => before@,
            })
        },
{
    match store {
        Some(s) => s.load(&pat_credential(account), file),
        None => None,
    }
}

/// Takes the token of an account out of memory once it was taken out of the
/// file.
pub fn delete_pat(
    store: &mut Option<SecretStore>,
    account: &AccountId,
    outcome: Result<(), StoreError>,
) -> (r: Result<(), StoreError>)
    requires
        store_wf(*old(store)),
    ensures
        store_wf(*final(store)),
        r == change_outcome(*old(store), outcome),
        (*final(store)) is Some == (*old(store)) is Some,
        (*old(store)) matches Some(before) ==> ((*final(store)) matches Some(after) && after@ == (if outcome
            is Ok {
            before@.remove(key_of(*account))
        } else {
            before@
        })),
{
    match store {
        Some(s) => s.delete(&pat_credential(account), outcome),
        None => Err(StoreError::NotInitialised),
    }
}

/// Where a token is made.
pub open spec fn help_url(kind: ProviderKind) -> Seq<char> {
    match kind {
        ProviderKind::GitHub => "https://github.com/settings/tokens?type=beta"@,
        ProviderKind::GitLab => "https://gitlab.com/-/user_settings/personal_access_tokens"@,
        ProviderKind::Bitbucket => "https://bitbucket.org/account/settings/app-passwords/"@,
        ProviderKind::AzureDevOps => "https://learn.microsoft.com/azure/devops/organizations/accounts/use-personal-access-tokens-to-authenticate"@,
        ProviderKind::Codeberg => "https://codeberg.org/user/settings/applications"@,
        ProviderKind::Gitea { .. } => "https://docs.gitea.com/usage/authentication#personal-access-tokens"@,
        ProviderKind::Generic { .. } => "https://git-scm.com/docs/gitcredentials"@,
    }
}

/// Where a token is made.
pub fn pat_help_url(kind: &ProviderKind) -> (r: &'static str)
    ensures
        r@ == help_url(*kind),
{
    match kind {
        ProviderKind::GitHub => "https://github.com/settings/tokens?type=beta",
        ProviderKind::GitLab => "https://gitlab.com/-/user_settings/personal_access_tokens",
        ProviderKind::Bitbucket => "https://bitbucket.org/account/settings/app-passwords/",
        ProviderKind::AzureDevOps => "https://learn.microsoft.com/azure/devops/organizations/accounts/use-personal-access-tokens-to-authenticate",
        ProviderKind::Codeberg => "https://codeberg.org/user/settings/applications",
        ProviderKind::Gitea { .. } => "https://docs.gitea.com/usage/authentication#personal-access-tokens",
        ProviderKind::Generic { .. } => "https://git-scm.com/docs/gitcredentials",
    }
}

/// The tokens of two accounts do not get in each other's way: what is kept
/// for one leaves that of the other as it is.
pub proof fn law_accounts_are_apart(
    before: Map<Key, Seq<char>>,
    a: AccountId,
    b: AccountId,
    token: Seq<char>,
)
    requires
        !(crate::providers::types::same_host(a.kind, b.kind) && a.username@ == b.username@),
    ensures
        crate::secrets::held(before.insert(key_of(a), token), key_of(b)) == crate::secrets::held(
            before,
            key_of(b),
        ),
        crate::secrets::held(before.remove(key_of(a)), key_of(b)) == crate::secrets::held(
            before,
            key_of(b),
        ),
{
    crate::providers::types::law_accounts_have_their_own_keys(a, b);
}

} // verus!
