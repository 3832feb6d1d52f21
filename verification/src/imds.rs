//! The instance-metadata credential source: a token-gated three-step fetch
//! whose results are interpreted and cached here.
//!
//! The surrounding program performs the three HTTP calls (token, role name,
//! credential document) with an aggressive one-second timeout and hands the
//! bodies in; everything decided about those bodies — role validity, field
//! extraction, expiration defaulting, cache freshness — is verified here.
//! The cache is an explicit owned value with a guarded accessor, so its
//! lifetime is visible and tests can reset it.

use vstd::prelude::*;
use crate::credentials::Credentials;
use crate::ini::{spec_trim_chars, trim_chars};
use crate::textutil::{chars_to_string, str_to_chars};

verus! {

/// The metadata endpoint queried by the surrounding program.
pub const IMDS_ENDPOINT: &'static str = "http://169.254.169.254";

/// Session-token time to live requested at the token step: six hours.
pub const IMDS_TOKEN_TTL_SECS: u64 = 21600;

/// Request timeout in seconds: fail fast when not in that environment.
pub const IMDS_TIMEOUT_SECS: u64 = 1;

/// Cached credentials are refreshed this many seconds before they expire.
pub const IMDS_REFRESH_BUFFER_SECS: u64 = 300;

/// Validity assumed when the document carries no usable expiration: one hour.
pub const IMDS_DEFAULT_VALIDITY_SECS: u64 = 3600;

/// A fetched triple together with the moment it expires, in seconds since
/// the epoch.
pub struct CachedCredentials {
    pub credentials: Credentials,
    pub expiration_epoch: u64,
}

/// The process-wide cache for metadata credentials: replaced wholesale on
/// refresh, never partially mutated.
pub struct CredentialCache {
    pub entry: Option<CachedCredentials>,
}

/// A cache entry answers a request at `now` only while its expiration lies
/// more than the refresh buffer in the future.
pub open spec fn spec_cache_is_fresh(entry: Option<CachedCredentials>, now: u64) -> bool {
    match entry {
        Some(c) => c.expiration_epoch > now + IMDS_REFRESH_BUFFER_SECS,
        None => false,
    }
}

impl CredentialCache {
    /// An empty cache.
    pub fn new() -> (r: CredentialCache)
        ensures
            r.entry is None,
    {
        CredentialCache { entry: None }
    }

    /// Returns the cached credentials exactly when they are still fresh at
    /// `now`; a stale or empty cache yields nothing and the caller must
    /// fetch.
    pub fn lookup(&self, now_epoch: u64) -> (r: Option<Credentials>)
        ensures
            r is Some <==> spec_cache_is_fresh(self.entry, now_epoch),
            r is Some ==> r->Some_0 == self.entry->Some_0.credentials,
    {
        match &self.entry {
            Some(c) => {
                if c.expiration_epoch > now_epoch && c.expiration_epoch - now_epoch
                    > IMDS_REFRESH_BUFFER_SECS {
                    Some(c.credentials.clone())
                } else {
                    None
                }
            },
            None => None,
        }
    }

    /// Replaces the cache content with a newly fetched triple.
    pub fn store(&mut self, credentials: Credentials, expiration_epoch: u64)
        ensures
            final(self).entry is Some,
            final(self).entry->Some_0.credentials == credentials,
            final(self).entry->Some_0.expiration_epoch == expiration_epoch,
    {
        self.entry = Some(CachedCredentials { credentials, expiration_epoch });
    }
}

/// The attached role named by the role-listing body: its trimmed text, and
/// only when that is non-empty — an empty body means no role is attached.
pub fn role_name_from_body(body: &str) -> (r: Option<String>)
    ensures
        r is Some <==> spec_trim_chars(body@).len() > 0,
        r is Some ==> r->Some_0@ == spec_trim_chars(body@),
{
    let chars = str_to_chars(body);
    let trimmed = trim_chars(&chars);
    if trimmed.len() == 0 {
        None
    } else {
        Some(chars_to_string(&trimmed))
    }
}

/// The string value of a top-level field of a JSON document, a function of
/// the document and the key alone; absent when the document does not parse,
/// the key is missing, or the value is not a string.
pub uninterp spec fn json_string_field(doc: Seq<char>, key: Seq<char>) -> Option<Seq<char>>;

/// Relies on serde_json's `from_str`, `Value::get` and `Value::as_str`: the
/// string value of a top-level field of a JSON document.
#[verifier::external_body]
fn json_string_field_of(doc: &str, key: &str) -> (r: Option<String>)
    ensures
        match r {
            Some(s) => json_string_field(doc@, key@) == Some(s@),
            None => json_string_field(doc@, key@) is None,
        },
{
    serde_json::from_str::<serde_json::Value>(doc).ok().and_then(
        |v| v.get(key).and_then(|x| x.as_str()).map(|s| s.to_string()),
    )
}

/// The epoch second an ISO-8601 timestamp denotes, a function of the text
/// alone; absent when the text does not parse as such a timestamp.
pub uninterp spec fn rfc3339_epoch(s: Seq<char>) -> Option<i64>;

/// Relies on chrono's `DateTime<Utc>` parsing and `timestamp`: the epoch
/// second an ISO-8601 timestamp denotes.
#[verifier::external_body]
fn parse_rfc3339_epoch(s: &str) -> (r: Option<i64>)
    ensures
        r == rfc3339_epoch(s@),
{
    s.parse::<chrono::DateTime<chrono::Utc>>().ok().map(|d| d.timestamp())
}

/// The expiration assigned to a fetched document at `now`: the parsed
/// `Expiration` field when it parses and still lies in the future, else a
/// conservative one-hour default.
pub open spec fn spec_imds_expiration(doc: Seq<char>, now: u64) -> int {
    match json_string_field(doc, "Expiration"@) {
        Some(text) => match rfc3339_epoch(text) {
            Some(t) => if t > now { t as int } else { now + IMDS_DEFAULT_VALIDITY_SECS },
            None => now + IMDS_DEFAULT_VALIDITY_SECS,
        },
        None => now + IMDS_DEFAULT_VALIDITY_SECS,
    }
}

/// Whether a credential document yields a triple: both required fields must
/// be present as strings.
pub open spec fn spec_imds_document_resolves(doc: Seq<char>) -> bool {
    json_string_field(doc, "AccessKeyId"@) is Some && json_string_field(
        doc,
        "SecretAccessKey"@,
    ) is Some
}

/// Interprets a fetched credential document at `now`: the triple from its
/// fields, and the expiration with the one-hour default substituted for a
/// missing, unparseable or already-past timestamp. An unusable expiration
/// never fails the whole resolution.
pub fn parse_imds_document(doc: &str, now_epoch: u64) -> (r: Option<(Credentials, u64)>)
    requires
        now_epoch + IMDS_DEFAULT_VALIDITY_SECS <= u64::MAX,
    ensures
        r is Some <==> spec_imds_document_resolves(doc@),
        r is Some ==> {
            let (creds, exp) = r->Some_0;
            &&& creds.access_key_id@ == json_string_field(doc@, "AccessKeyId"@)->Some_0
            &&& creds.secret_access_key@ == json_string_field(doc@, "SecretAccessKey"@)->Some_0
            &&& match json_string_field(doc@, "Token"@) {
                Some(t) => creds.session_token is Some && creds.session_token->Some_0@ == t,
                None => creds.session_token is None,
            }
            &&& exp == spec_imds_expiration(doc@, now_epoch)
        },
{
    let access_key_id = match json_string_field_of(doc, "AccessKeyId") {
        Some(v) => v,
        None => {
            return None;
        },
    };
    let secret_access_key = match json_string_field_of(doc, "SecretAccessKey") {
        Some(v) => v,
        None => {
            return None;
        },
    };
    let session_token = json_string_field_of(doc, "Token");

    let expiration_epoch: u64 = match json_string_field_of(doc, "Expiration") {
        Some(text) => match parse_rfc3339_epoch(text.as_str()) {
            Some(t) => {
                if t > 0 && t as u64 > now_epoch {
                    t as u64
                } else {
                    now_epoch + IMDS_DEFAULT_VALIDITY_SECS
                }
            },
            None => now_epoch + IMDS_DEFAULT_VALIDITY_SECS,
        },
        None => now_epoch + IMDS_DEFAULT_VALIDITY_SECS,
    };

    Some(
        (
            Credentials { access_key_id, secret_access_key, session_token },
            expiration_epoch,
        ),
    )
}

/// Interprets a fetched document and stores the result, replacing any
/// previous cache entry; a document without the required fields leaves the
/// cache as it was.
pub fn refresh_from_document(cache: &mut CredentialCache, doc: &str, now_epoch: u64) -> (r: Option<
    Credentials,
>)
    requires
        now_epoch + IMDS_DEFAULT_VALIDITY_SECS <= u64::MAX,
    ensures
        r is Some <==> spec_imds_document_resolves(doc@),
        r is Some ==> {
            &&& final(cache).entry is Some
            &&& final(cache).entry->Some_0.credentials == r->Some_0
            &&& final(cache).entry->Some_0.expiration_epoch == spec_imds_expiration(
                doc@,
                now_epoch,
            )
        },
        r is None ==> *final(cache) == *old(cache),
{
    match parse_imds_document(doc, now_epoch) {
        Some((credentials, expiration_epoch)) => {
            let returned = credentials.clone();
            cache.store(credentials, expiration_epoch);
            Some(returned)
        },
        None => None,
    }
}

} // verus!
