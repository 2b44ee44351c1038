use mergefox::providers::pat::{delete_pat, load_pat, store_pat};
use mergefox::providers::types::{AccountId, ProviderKind};
use mergefox::secrets::{
    file_path, generate_mcp_token, mcp_credential, mcp_token_or_new, temporary_path, token_of,
    Credential, FileEntry, FileStoreDoc, SecretStore, StoreError,
};

fn cred(a: &str) -> Credential {
    Credential::new("svc", a)
}

#[test]
fn what_is_written_is_read_back() {
    let mut doc = FileStoreDoc::new();
    doc.write(&cred("a"), "1");
    doc.write(&cred("b"), "2");
    doc.write(&cred("a"), "3");
    assert_eq!(doc.read(&cred("a")).as_deref(), Some("3"));
    assert_eq!(doc.read(&cred("b")).as_deref(), Some("2"));
    assert_eq!(doc.read(&cred("c")), None);
    assert_eq!(doc.entries.len(), 2);
    assert!(doc.warning.starts_with("mergefox secrets — PLAINTEXT tokens."));
    assert!(doc.warning.ends_with("Protect it like you would ~/.ssh/id_ed25519."));
}

#[test]
fn an_empty_value_takes_the_entry_out() {
    let mut doc = FileStoreDoc::new();
    doc.write(&cred("a"), "1");
    doc.write(&cred("a"), "");
    assert_eq!(doc.read(&cred("a")), None);
    assert!(doc.entries.is_empty());
}

#[test]
fn deleting_tells_whether_there_was_anything() {
    let mut doc = FileStoreDoc::new();
    let twice = |v: &str| FileEntry {
        service: "svc".into(),
        account: "a".into(),
        value: v.into(),
    };
    doc.entries = vec![twice("1"), twice("2")];
    assert_eq!(doc.read(&cred("a")).as_deref(), Some("1"));
    assert!(doc.delete(&cred("a")));
    assert_eq!(doc.read(&cred("a")), None);
    assert!(!doc.delete(&cred("a")));
}

#[test]
fn memory_answers_before_the_file() {
    let mut store = SecretStore::new();
    let mut doc = FileStoreDoc::new();
    doc.write(&cred("a"), "old");
    assert_eq!(store.cached(&cred("a")), None);
    assert_eq!(store.load(&cred("a"), &doc).as_deref(), Some("old"));
    doc.write(&cred("a"), "new");
    assert_eq!(store.load(&cred("a"), &doc).as_deref(), Some("old"));
    assert!(store.save(&cred("a"), "new", Ok(())).is_ok());
    assert_eq!(store.cached(&cred("a")).as_deref(), Some("new"));
    assert!(store.delete(&cred("a"), Ok(())).is_ok());
    assert_eq!(store.cached(&cred("a")), None);
}

#[test]
fn a_failed_write_leaves_memory_alone() {
    let mut store = SecretStore::new();
    let _ = store.save(&cred("a"), "1", Ok(()));
    let failed = || Err(StoreError::Write { path: "p".into() });
    assert!(store.save(&cred("a"), "2", failed()).is_err());
    assert_eq!(store.cached(&cred("a")).as_deref(), Some("1"));
    assert!(store.delete(&cred("a"), failed()).is_err());
    assert_eq!(store.cached(&cred("a")).as_deref(), Some("1"));
}

#[test]
fn a_missing_api_key_is_empty() {
    let mut store = SecretStore::new();
    let doc = FileStoreDoc::new();
    assert_eq!(store.load_api_key("ai", "endpoint", &doc), "");
    let _ = store.save(&Credential::new("ai", "endpoint"), "k", Ok(()));
    assert_eq!(store.load_api_key("ai", "endpoint", &doc), "k");
}

#[test]
fn tokens_of_accounts() {
    let alice = AccountId { kind: ProviderKind::GitHub, username: "alice".into() };
    let lab = AccountId { kind: ProviderKind::GitLab, username: "alice".into() };
    let doc = FileStoreDoc::new();
    let mut none: Option<SecretStore> = None;
    assert!(matches!(
        store_pat(&mut none, &alice, "t", Ok(())),
        Err(StoreError::NotInitialised)
    ));
    assert!(load_pat(&mut none, &alice, &doc).is_none());
    assert!(delete_pat(&mut none, &alice, Ok(())).is_err());
    let mut store = Some(SecretStore::new());
    assert!(store_pat(&mut store, &alice, "t", Ok(())).is_ok());
    assert!(store_pat(&mut store, &lab, "u", Ok(())).is_ok());
    assert!(delete_pat(&mut store, &lab, Ok(())).is_ok());
    assert_eq!(load_pat(&mut store, &alice, &doc).as_deref(), Some("t"));
    assert_eq!(load_pat(&mut store, &lab, &doc), None);
}

#[test]
fn session_tokens_are_hexadecimal() {
    assert_eq!(token_of(&[0, 15, 255]), "000fff");
    let a = generate_mcp_token().unwrap();
    let b = generate_mcp_token().unwrap();
    assert_eq!(a.len(), 64);
    assert!(a.chars().all(|c| c.is_ascii_hexdigit() && !c.is_ascii_uppercase()));
    assert_ne!(a, b);
    assert_ne!(a, "0".repeat(64));
    assert_eq!(mcp_token_or_new(Some("kept".into())).unwrap(), ("kept".to_string(), false));
    let (fresh, save) = mcp_token_or_new(None).unwrap();
    assert_eq!(fresh.len(), 64);
    assert!(save);
    assert_eq!(mcp_credential().service, "mergefox-mcp");
}

#[test]
fn secrets_lie_in_the_settings() {
    assert_eq!(file_path(Some("/home/me/.config")), "/home/me/.config/mergefox/secrets.json");
    assert_eq!(file_path(None), "secrets.json");
    assert_eq!(temporary_path("/c/mergefox/secrets.json"), "/c/mergefox/secrets.json.tmp");
}

#[test]
fn store_errors_in_words() {
    assert_eq!(
        StoreError::NotInitialised.message(),
        "secret store not yet initialised (programmer error)"
    );
    assert_eq!(StoreError::Read { path: "p".into() }.message(), "read p");
    assert_eq!(StoreError::Parse { path: "p".into() }.message(), "parse p");
    assert_eq!(StoreError::Write { path: "p".into() }.message(), "write p");
    assert_eq!(
        StoreError::Rename { from: "a".into(), to: "b".into() }.message(),
        "rename a -> b"
    );
}

#[test]
fn api_keys_are_kept_once_they_are_written() {
    let mut store = SecretStore::new();
    let doc = FileStoreDoc::new();
    let failed = || StoreError::Write { path: "f".into() };
    assert!(store.save_api_key("ai", "e", "k", Err(failed())).is_err());
    assert_eq!(store.load_api_key("ai", "e", &doc), "");
    assert!(store.save_api_key("ai", "e", "k", Ok(())).is_ok());
    assert_eq!(store.load_api_key("ai", "e", &doc), "k");
    assert_eq!(store.load_api_key("ai", "other", &doc), "");
    assert!(store.delete_api_key("ai", "e", Err(failed())).is_err());
    assert_eq!(store.load_api_key("ai", "e", &doc), "k");
    assert!(store.delete_api_key("ai", "e", Ok(())).is_ok());
    assert_eq!(store.load_api_key("ai", "e", &doc), "");
}

#[test]
fn the_session_token_stays_until_it_is_deleted() {
    let mut store = SecretStore::new();
    let doc = FileStoreDoc::new();
    let (token, is_new) = store.load_or_generate_mcp_token(&doc).unwrap();
    assert!(is_new);
    assert_eq!(token.len(), 64);
    let failed = StoreError::Write { path: "f".into() };
    assert!(store.finish_mcp_token(token.clone(), Err(failed)).is_err());
    assert!(store.load_or_generate_mcp_token(&doc).unwrap().1);
    assert_eq!(store.finish_mcp_token(token.clone(), Ok(())).unwrap(), token);
    assert_eq!(store.load_or_generate_mcp_token(&doc).unwrap(), (token, false));
    assert!(store.delete_mcp_token(Ok(())).is_ok());
    assert!(store.load_or_generate_mcp_token(&doc).unwrap().1);
    let mut file = FileStoreDoc::new();
    file.write(&mcp_credential(), "from the file");
    let kept = store.load_or_generate_mcp_token(&file).unwrap();
    assert_eq!(kept, ("from the file".to_string(), false));
}
