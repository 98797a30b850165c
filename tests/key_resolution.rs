use sentc::cache::{FetchFailure, KeyCache, Lookup, Poll};
use sentc::envelope::{split_head_and_data, split_head_and_string, EnvelopeHead, SignRef};
use sentc::error::SentcError;
use sentc::group::Group;
use sentc::key_store::{KeyStore, VersionedKey};
use sentc::verify::{pick_verify_key, verify_key_request, VerifyStep};

fn key(id: &str, material: u32) -> VersionedKey<u32> {
    VersionedKey { id: id.to_string(), material }
}

fn signed_head(key_id: &str, sign_key: &str) -> EnvelopeHead {
    EnvelopeHead {
        key_id: key_id.to_string(),
        signer_user_id: None,
        sign: Some(SignRef { key_id: sign_key.to_string(), alg: "ed25519".to_string() }),
    }
}

#[test]
fn concurrent_lookups_share_one_fetch() {
    let mut c: KeyCache<u32> = KeyCache::new();
    let steps: Vec<Lookup> = (0..5).map(|_| c.lookup("user1")).collect();
    assert_eq!(steps.iter().filter(|s| **s == Lookup::Fetch).count(), 1);
    assert_eq!(steps[0], Lookup::Fetch);
    assert!(steps[1..].iter().all(|s| *s == Lookup::Wait));
    assert_eq!(c.poll("user1"), Poll::Pending);
    assert!(c.complete("user1", Ok(42)));
    assert_eq!(c.poll("user1"), Poll::Ready);
    assert_eq!(c.get("user1"), Some(&42));
    assert_eq!(c.lookup("user1"), Lookup::Ready);
}

#[test]
fn failed_fetch_is_seen_by_all_and_may_be_retried() {
    let mut c: KeyCache<u32> = KeyCache::new();
    assert_eq!(c.lookup("k"), Lookup::Fetch);
    assert_eq!(c.lookup("k"), Lookup::Wait);
    assert!(c.complete("k", Err(FetchFailure::NotFound)));
    assert_eq!(c.poll("k"), Poll::Failed(FetchFailure::NotFound));
    assert_eq!(c.poll("k"), Poll::Failed(FetchFailure::NotFound));
    assert_eq!(c.get("k"), None);
    assert_eq!(c.lookup("k"), Lookup::Fetch);
    assert_eq!(c.lookup("k"), Lookup::Wait);
}

#[test]
fn complete_without_fetch_changes_nothing() {
    let mut c: KeyCache<u32> = KeyCache::new();
    assert!(!c.complete("x", Ok(1)));
    assert_eq!(c.poll("x"), Poll::Absent);
    assert_eq!(c.lookup("a"), Lookup::Fetch);
    assert_eq!(c.lookup("b"), Lookup::Fetch);
    assert!(c.complete("b", Ok(2)));
    assert!(!c.complete("b", Ok(3)));
    assert_eq!(c.get("b"), Some(&2));
    assert_eq!(c.poll("a"), Poll::Pending);
}

#[test]
fn rotation_keeps_old_versions() {
    let mut g: Group<u32> = Group::new("g1".to_string(), "u1".to_string());
    assert!(g.get_newest_key().is_none());
    g.set_newest_key(key("v1", 1));
    g.set_newest_key(key("v2", 2));
    assert_eq!(g.get_newest_key().unwrap().id, "v2");
    assert_eq!(g.get_group_key("v1").unwrap().material, 1);
    assert_eq!(g.get_group_key("v2").unwrap().material, 2);
    assert_eq!(g.group_id(), "g1");
    assert_eq!(g.used_user_id(), "u1");
}

#[test]
fn historical_version_is_fetched_on_miss() {
    let mut g: Group<u32> = Group::new("g1".to_string(), "u1".to_string());
    g.set_newest_key(key("v2", 2));
    let head = signed_head("v1", "s1");
    assert!(g.decrypt_key(&head).is_none());
    assert!(g.key_fetched("v1", Ok(1)).is_ok());
    assert_eq!(g.decrypt_key(&head).unwrap().material, 1);
    assert_eq!(g.get_newest_key().unwrap().id, "v2");
}

#[test]
fn missing_version_gives_key_not_found() {
    let mut g: Group<u32> = Group::new("g1".to_string(), "u1".to_string());
    g.set_newest_key(key("v2", 2));
    let r = g.key_fetched("gone", Err(FetchFailure::NotFound));
    assert!(matches!(r, Err(SentcError::KeyNotFound)));
    assert!(g.get_group_key("gone").is_none());
    assert_eq!(g.get_newest_key().unwrap().id, "v2");
    let r = g.key_fetched("gone", Err(FetchFailure::Transport));
    assert!(matches!(r, Err(SentcError::FetchFailed)));
}

#[test]
fn encrypt_uses_newest_key_and_sign_key() {
    let mut g: Group<u32> = Group::new("g1".to_string(), "u1".to_string());
    let mut signer: KeyStore<u32> = KeyStore::new();
    assert!(matches!(g.encrypt_keys(false, Some(&signer)), Err(SentcError::KeyNotFound)));
    g.set_newest_key(key("k1", 10));
    assert!(matches!(g.encrypt_keys(true, None::<&KeyStore<u32>>), Err(SentcError::UserNotFound)));
    assert!(matches!(g.encrypt_keys(true, Some(&signer)), Err(SentcError::KeyNotFound)));
    signer.rotate(key("s1", 7));
    let (k, s) = g.encrypt_keys(true, Some(&signer)).ok().unwrap();
    assert_eq!(k.id, "k1");
    assert_eq!(s.unwrap().id, "s1");
    let (k, s) = g.encrypt_keys(false, None::<&KeyStore<u32>>).ok().unwrap();
    assert_eq!(k.material, 10);
    assert!(s.is_none());
}

#[test]
fn verify_off_never_fetches() {
    let head = signed_head("k1", "s1");
    assert!(matches!(verify_key_request(&head, false, Some("u1")), Ok(VerifyStep::Skip)));
    assert!(matches!(verify_key_request(&head, false, None), Ok(VerifyStep::Skip)));
}

#[test]
fn verify_resolves_signer() {
    let head = signed_head("k1", "s1");
    match verify_key_request(&head, true, Some("u1")) {
        Ok(VerifyStep::Fetch { user_id, key_id }) => {
            assert_eq!(user_id, "u1");
            assert_eq!(key_id, "s1");
        },
        _ => panic!("expected a fetch"),
    }
    assert!(matches!(verify_key_request(&head, true, None), Err(SentcError::UserNotFound)));
    let mut named = signed_head("k1", "s2");
    named.signer_user_id = Some("u9".to_string());
    match verify_key_request(&named, true, None) {
        Ok(VerifyStep::Fetch { user_id, key_id }) => {
            assert_eq!(user_id, "u9");
            assert_eq!(key_id, "s2");
        },
        _ => panic!("expected a fetch"),
    }
    let unsigned = EnvelopeHead { key_id: "k1".to_string(), signer_user_id: None, sign: None };
    assert!(matches!(verify_key_request(&unsigned, true, Some("u1")), Err(SentcError::KeyNotFound)));
    assert!(matches!(verify_key_request(&unsigned, true, None), Err(SentcError::UserNotFound)));
    assert!(matches!(verify_key_request(&unsigned, false, None), Ok(VerifyStep::Skip)));
}

#[test]
fn verify_key_is_picked_by_id() {
    let mut keys: KeyStore<u32> = KeyStore::new();
    keys.rotate(key("s1", 1));
    keys.rotate(key("s2", 2));
    assert_eq!(pick_verify_key(Some(&keys), "s1").ok().unwrap().material, 1);
    assert!(matches!(pick_verify_key(Some(&keys), "s3"), Err(SentcError::KeyNotFound)));
    assert!(matches!(pick_verify_key(None::<&KeyStore<u32>>, "s1"), Err(SentcError::UserNotFound)));
}

#[test]
fn split_bytes_reads_head_and_body() {
    let data = b"{\"id\":\"k1\",\"sign\":{\"id\":\"s1\",\"alg\":\"ed25519\"}}\0cipher";
    let (head, body) = split_head_and_data(data).ok().unwrap();
    assert_eq!(head.key_id, "k1");
    let sign = head.sign.unwrap();
    assert_eq!(sign.key_id, "s1");
    assert_eq!(sign.alg, "ed25519");
    assert_eq!(body, b"cipher");
    let (head, body) = split_head_and_data(b"{\"id\":\"k2\",\"sign\":null}\0").ok().unwrap();
    assert_eq!(head.key_id, "k2");
    assert!(head.sign.is_none());
    assert!(body.is_empty());
}

#[test]
fn split_bytes_rejects_malformed_input() {
    assert!(matches!(split_head_and_data(b"{\"id\":\"k1\",\"sign\":null}"), Err(SentcError::MalformedEnvelope)));
    assert!(matches!(split_head_and_data(b""), Err(SentcError::MalformedEnvelope)));
    assert!(matches!(split_head_and_data(b"not json\0x"), Err(SentcError::Sdk(_))));
}

#[test]
fn split_string_reads_head() {
    let head = split_head_and_string("eyJpZCI6ImsxIiwic2lnbiI6eyJpZCI6InMxIiwiYWxnIjoiZWQyNTUxOSJ9fQBjaXBoZXI=").ok().unwrap();
    assert_eq!(head.key_id, "k1");
    assert_eq!(head.sign.unwrap().key_id, "s1");
    assert!(matches!(split_head_and_string("eyJpZCI6ImsxIn0="), Err(SentcError::MalformedEnvelope)));
    assert!(matches!(split_head_and_string("bm90IGpzb24AeA=="), Err(SentcError::Sdk(_))));
    assert!(matches!(split_head_and_string("%%%"), Err(SentcError::Sdk(_))));
}

#[test]
fn signed_hello_resolves_k1_and_signer() {
    let mut g: Group<u32> = Group::new("g1".to_string(), "u1".to_string());
    g.set_newest_key(key("k1", 11));
    let mut signer: KeyStore<u32> = KeyStore::new();
    signer.rotate(key("s1", 5));
    let (k, s) = g.encrypt_keys(true, Some(&signer)).ok().unwrap();
    assert_eq!(k.id, "k1");
    let s = s.unwrap();
    let mut data = format!("{{\"id\":\"{}\",\"sign\":{{\"id\":\"{}\",\"alg\":\"ed25519\"}}}}", k.id, s.id).into_bytes();
    data.push(0);
    data.extend_from_slice(b"hello");
    let (head, body) = split_head_and_data(&data).ok().unwrap();
    assert_eq!(head.key_id, "k1");
    assert_eq!(body, b"hello");
    assert_eq!(g.decrypt_key(&head).unwrap().material, 11);
    match verify_key_request(&head, true, Some("u1")) {
        Ok(VerifyStep::Fetch { user_id, key_id }) => {
            assert_eq!(user_id, "u1");
            assert_eq!(pick_verify_key(Some(&signer), &key_id).ok().unwrap().material, 5);
        },
        _ => panic!("expected a fetch"),
    }
}

#[test]
fn key_used_for_encryption_survives_rotations() {
    let mut g: Group<u32> = Group::new("g1".to_string(), "u1".to_string());
    g.set_newest_key(key("v1", 1));
    let (k, _) = g.encrypt_keys(false, None::<&KeyStore<u32>>).ok().unwrap();
    let used = k.id.clone();
    g.set_newest_key(key("v2", 2));
    assert!(g.key_fetched("v0", Ok(0)).is_ok());
    g.set_newest_key(key("v3", 3));
    g.set_newest_key(key("v1", 99));
    assert_eq!(g.get_newest_key().unwrap().material, 1);
    let head = EnvelopeHead { key_id: used, signer_user_id: None, sign: None };
    assert_eq!(g.decrypt_key(&head).unwrap().material, 1);
    assert_eq!(g.get_group_key("v0").unwrap().material, 0);
}

#[test]
fn core_error_surfaces_as_sdk_error() {
    let e: SentcError = sentc_crypto::sdk_core::Error::EncryptionFailed.into();
    assert!(matches!(e, SentcError::Sdk(_)));
    let e: SentcError = serde_json::from_str::<u32>("x").unwrap_err().into();
    assert!(matches!(e, SentcError::JsonParseFailed(_)));
}
