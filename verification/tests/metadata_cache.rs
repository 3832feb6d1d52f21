//! The instance-metadata cache and credential-document interpretation.

use awscore::imds::{
    parse_imds_document, refresh_from_document, role_name_from_body, CredentialCache,
};

const NOW: u64 = 1705312496;

#[test]
fn fresh_cache_answers_without_a_fetch() {
    // Expiration ten minutes out, refresh buffer five minutes: fresh.
    let doc = "{\"AccessKeyId\":\"AK\",\"SecretAccessKey\":\"SK\",\"Token\":\"TK\"}";
    let (creds, _) = parse_imds_document(doc, NOW).expect("document resolves");
    let mut cache = CredentialCache::new();
    cache.store(creds, NOW + 600);
    let hit = cache.lookup(NOW).expect("ten minutes out is fresh");
    assert_eq!(hit.access_key_id, "AK");
    assert_eq!(hit.session_token, Some("TK".to_string()));
}

#[test]
fn near_expiry_cache_triggers_a_refresh() {
    // Expiration two minutes out is inside the five-minute buffer: stale.
    let mut cache = CredentialCache::new();
    let doc = "{\"AccessKeyId\":\"AK\",\"SecretAccessKey\":\"SK\"}";
    let creds = refresh_from_document(&mut cache, doc, NOW).expect("document resolves");
    cache.store(creds, NOW + 120);
    assert!(cache.lookup(NOW).is_none());
}

#[test]
fn empty_cache_yields_nothing() {
    let cache = CredentialCache::new();
    assert!(cache.lookup(NOW).is_none());
}

#[test]
fn document_fields_are_extracted() {
    let doc = "{\"AccessKeyId\":\"AK\",\"SecretAccessKey\":\"SK\",\"Token\":\"TK\",\
               \"Expiration\":\"2024-01-15T12:00:00Z\"}";
    let (creds, expiration) = parse_imds_document(doc, NOW).expect("document resolves");
    assert_eq!(creds.access_key_id, "AK");
    assert_eq!(creds.secret_access_key, "SK");
    assert_eq!(creds.session_token, Some("TK".to_string()));
    assert_eq!(expiration, 1705320000);
}

#[test]
fn missing_required_field_fails_the_document() {
    assert!(parse_imds_document("{\"AccessKeyId\":\"AK\"}", NOW).is_none());
    assert!(parse_imds_document("not json at all", NOW).is_none());
}

#[test]
fn unparseable_expiration_gets_the_one_hour_default() {
    let doc = "{\"AccessKeyId\":\"AK\",\"SecretAccessKey\":\"SK\",\"Expiration\":\"soonish\"}";
    let (_, expiration) = parse_imds_document(doc, NOW).expect("document resolves");
    assert_eq!(expiration, NOW + 3600);
}

#[test]
fn past_expiration_gets_the_one_hour_default() {
    let doc = "{\"AccessKeyId\":\"AK\",\"SecretAccessKey\":\"SK\",\
               \"Expiration\":\"2020-01-15T12:00:00Z\"}";
    let (_, expiration) = parse_imds_document(doc, NOW).expect("document resolves");
    assert_eq!(expiration, NOW + 3600);
}

#[test]
fn missing_expiration_gets_the_one_hour_default() {
    let doc = "{\"AccessKeyId\":\"AK\",\"SecretAccessKey\":\"SK\"}";
    let (_, expiration) = parse_imds_document(doc, NOW).expect("document resolves");
    assert_eq!(expiration, NOW + 3600);
}

#[test]
fn refresh_replaces_the_cache_wholesale() {
    let mut cache = CredentialCache::new();
    let doc = "{\"AccessKeyId\":\"AK\",\"SecretAccessKey\":\"SK\",\
               \"Expiration\":\"2024-01-15T12:00:00Z\"}";
    let creds = refresh_from_document(&mut cache, doc, NOW).expect("document resolves");
    assert_eq!(creds.access_key_id, "AK");
    let entry = cache.entry.as_ref().expect("stored");
    assert_eq!(entry.expiration_epoch, 1705320000);
    // A bad document leaves the cache as it was.
    assert!(refresh_from_document(&mut cache, "{}", NOW).is_none());
    assert!(cache.entry.is_some());
}

#[test]
fn role_name_is_trimmed_and_empty_means_no_role() {
    assert_eq!(role_name_from_body("  my-role \n"), Some("my-role".to_string()));
    assert_eq!(role_name_from_body("my-role"), Some("my-role".to_string()));
    assert_eq!(role_name_from_body("   \n"), None);
    assert_eq!(role_name_from_body(""), None);
}
