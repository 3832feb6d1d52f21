//! The wire-dialect builders: each produces a fully signed request
//! description — method, URL, headers, body — that the surrounding program
//! sends as it stands, and a classifier for what comes back.

use vstd::prelude::*;
use vstd::string::StringSliceAdditionalSpecFns;
use vstd::utf8::encode_utf8;
use crate::canonical::{
    pairs_view, spec_canonical_query, spec_percent_encode, spec_signed_headers,
    canonical_query_string, percent_encode, KvPair,
};
use crate::credentials::Credentials;
use crate::digest::{sha256, sha256_of};
use crate::endpoint::{
    endpoint_base, host_for_service, signing_region, spec_endpoint_base, spec_service_host,
    spec_signing_region,
};
use crate::sign::{
    push_bytes, sign, spec_authorization_header, spec_credential_scope, spec_signature,
    SigningContext,
};
use crate::textutil::{bytes_eq, hex_encode, spec_hex};

verus! {

/// A failure surfaced to the caller, never retried or recovered silently.
#[derive(Debug, Clone)]
pub enum RequestError {
    /// The provider answered with a non-success status; the body is kept for
    /// the caller's own error-code extraction.
    Http { status: u16, body: String },
    /// The exchange itself failed: name resolution, connection, timeout.
    Transport { message: String },
    /// The body did not parse as the dialect the operation expects.
    MalformedResponse { message: String },
    /// No credential source produced a triple for this profile.
    CredentialsNotFound { profile: String },
    /// No wire dialect is configured for this service.
    UnsupportedService { service: String },
}

/// A request ready to send: the surrounding program performs the exchange
/// without reading or changing any of it.
pub struct SignedRequest {
    pub method: Vec<u8>,
    pub url: Vec<u8>,
    pub headers: Vec<KvPair>,
    pub body: Vec<u8>,
}

/// The URL of a request: base, encoded path, and the canonical query string
/// when any parameter is present.
pub open spec fn spec_request_url(base: Seq<u8>, path: Seq<u8>, query: Seq<(Seq<u8>, Seq<u8>)>)
    -> Seq<u8> {
    base + spec_percent_encode(path, true) + if query.len() == 0 {
        Seq::<u8>::empty()
    } else {
        seq![0x3fu8] + spec_canonical_query(query)
    }
}

/// The headers that get signed: the dialect's own, then `host` and
/// `x-amz-date`, then the session token when one is carried.
pub open spec fn spec_signing_headers(
    extra: Seq<(Seq<u8>, Seq<u8>)>,
    host: Seq<u8>,
    amz_date: Seq<u8>,
    token: Option<Seq<char>>,
) -> Seq<(Seq<u8>, Seq<u8>)> {
    extra + seq![(("host").spec_bytes(), host), (("x-amz-date").spec_bytes(), amz_date)]
        + match token {
        Some(t) => seq![(("x-amz-security-token").spec_bytes(), encode_utf8(t))],
        None => Seq::empty(),
    }
}

/// The authorization header a request carries, as a function of everything
/// signed.
pub open spec fn spec_request_authorization(
    method: Seq<u8>,
    path: Seq<u8>,
    query: Seq<(Seq<u8>, Seq<u8>)>,
    signing_headers: Seq<(Seq<u8>, Seq<u8>)>,
    body: Seq<u8>,
    region: Seq<u8>,
    service: Seq<u8>,
    amz_date: Seq<u8>,
    creds: Credentials,
) -> Seq<u8> {
    spec_authorization_header(
        encode_utf8(creds.access_key_id@),
        spec_credential_scope(amz_date.take(8), region, service),
        spec_signed_headers(signing_headers),
        spec_signature(
            method,
            spec_percent_encode(path, true),
            query,
            signing_headers,
            spec_hex(sha256_of(body)),
            region,
            service,
            amz_date,
            encode_utf8(creds.secret_access_key@),
        ),
    )
}

/// The full header list sent: the signed headers, then `authorization`.
pub open spec fn spec_sent_headers(
    signing_headers: Seq<(Seq<u8>, Seq<u8>)>,
    authorization: Seq<u8>,
) -> Seq<(Seq<u8>, Seq<u8>)> {
    signing_headers + seq![(("authorization").spec_bytes(), authorization)]
}

/// The session token carried by a credential triple, as text.
pub open spec fn spec_token(creds: Credentials) -> Option<Seq<char>> {
    match creds.session_token {
        Some(t) => Some(t@),
        None => None,
    }
}

/// What a correctly built request looks like: the given method and body, the
/// URL from the base, encoded path and canonical query, and the signed
/// header set followed by the authorization computed over exactly those
/// headers, the query, and the body's hash.
pub open spec fn request_built(
    r: SignedRequest,
    method: Seq<u8>,
    base: Seq<u8>,
    host: Seq<u8>,
    path: Seq<u8>,
    query: Seq<(Seq<u8>, Seq<u8>)>,
    extra: Seq<(Seq<u8>, Seq<u8>)>,
    body: Seq<u8>,
    service: Seq<u8>,
    region: Seq<u8>,
    amz_date: Seq<u8>,
    creds: Credentials,
) -> bool {
    let sh = spec_signing_headers(extra, host, amz_date, spec_token(creds));
    &&& r.method@ == method
    &&& r.body@ == body
    &&& r.url@ == spec_request_url(base, path, query)
    &&& pairs_view(r.headers@) == spec_sent_headers(
        sh,
        spec_request_authorization(
            method,
            path,
            query,
            sh,
            body,
            region,
            service,
            amz_date,
            creds,
        ),
    )
}

/// Builds a signed request from its parts: the URL gains the canonical query
/// string, the headers gain `host`, `x-amz-date`, the session token when one
/// is present, and the authorization computed over exactly those headers,
/// the query, and the body's hash.
pub fn build_signed_request(
    method: &[u8],
    base: &[u8],
    host: &[u8],
    path: &[u8],
    query: Vec<KvPair>,
    extra_headers: Vec<KvPair>,
    body: &[u8],
    service: &[u8],
    region: &[u8],
    amz_date: &[u8],
    creds: &Credentials,
) -> (r: SignedRequest)
    requires
        amz_date@.len() >= 8,
    ensures
        request_built(
            r,
            method@,
            base@,
            host@,
            path@,
            pairs_view(query@),
            pairs_view(extra_headers@),
            body@,
            service@,
            region@,
            amz_date@,
            *creds,
        ),
{
    let ghost extra0 = pairs_view(extra_headers@);

    let payload_hash_bytes = sha256(body);
    let payload_hash = hex_encode(payload_hash_bytes.as_slice());
    let canonical_uri = percent_encode(path, true);

    let mut signing_headers = extra_headers;
    let mut host_name: Vec<u8> = Vec::new();
    push_bytes(&mut host_name, "host".as_bytes());
    let mut host_value: Vec<u8> = Vec::new();
    push_bytes(&mut host_value, host);
    signing_headers.push(KvPair { key: host_name, value: host_value });
    let mut date_name: Vec<u8> = Vec::new();
    push_bytes(&mut date_name, "x-amz-date".as_bytes());
    let mut date_value: Vec<u8> = Vec::new();
    push_bytes(&mut date_value, amz_date);
    signing_headers.push(KvPair { key: date_name, value: date_value });
    match &creds.session_token {
        Some(token) => {
            let mut tok_name: Vec<u8> = Vec::new();
            push_bytes(&mut tok_name, "x-amz-security-token".as_bytes());
            let mut tok_value: Vec<u8> = Vec::new();
            push_bytes(&mut tok_value, token.as_str().as_bytes());
            signing_headers.push(KvPair { key: tok_name, value: tok_value });
        },
        None => {},
    }
    proof {
        assert(pairs_view(signing_headers@) =~= spec_signing_headers(
            extra0,
            host@,
            amz_date@,
            match creds.session_token {
                Some(t) => Some(t@),
                None => None,
            },
        ));
    }

    let mut method_vec: Vec<u8> = Vec::new();
    push_bytes(&mut method_vec, method);
    let mut region_vec: Vec<u8> = Vec::new();
    push_bytes(&mut region_vec, region);
    let mut service_vec: Vec<u8> = Vec::new();
    push_bytes(&mut service_vec, service);
    let mut amz_date_vec: Vec<u8> = Vec::new();
    push_bytes(&mut amz_date_vec, amz_date);
    proof {
        assert(method_vec@ =~= method@);
        assert(region_vec@ =~= region@);
        assert(service_vec@ =~= service@);
        assert(amz_date_vec@ =~= amz_date@);
    }

    let ctx = SigningContext {
        method: method_vec,
        canonical_uri,
        query_params: query,
        headers: signing_headers,
        payload_hash,
        region: region_vec,
        service: service_vec,
        amz_date: amz_date_vec,
    };
    let out = sign(&ctx, creds);

    let cq = canonical_query_string(&ctx.query_params);
    let mut url: Vec<u8> = Vec::new();
    push_bytes(&mut url, base);
    push_bytes(&mut url, ctx.canonical_uri.as_slice());
    if ctx.query_params.len() > 0 {
        url.push(0x3f);
        push_bytes(&mut url, cq.as_slice());
    }
    proof {
        if pairs_view(ctx.query_params@).len() == 0 {
            assert(spec_canonical_query(pairs_view(ctx.query_params@)) =~= Seq::<u8>::empty())
                by {
                broadcast use vstd::seq_lib::group_to_multiset_ensures;

                let e = Seq::<(Seq<u8>, Seq<u8>)>::empty();
                assert(pairs_view(ctx.query_params@).map_values(
                    crate::canonical::encode_pair_fn(),
                ) =~= e);
                crate::canonical::lemma_pair_le_fn_total_ordering();
                e.lemma_sort_by_ensures(crate::canonical::pair_le_fn());
                assert(e.sort_by(crate::canonical::pair_le_fn()).to_multiset().len() == 0);
                assert(e.sort_by(crate::canonical::pair_le_fn()).len() == 0);
            }
        }
        assert(url@ =~= spec_request_url(base@, path@, pairs_view(ctx.query_params@)));
    }

    let mut headers = ctx.headers;
    let mut auth_name: Vec<u8> = Vec::new();
    push_bytes(&mut auth_name, "authorization".as_bytes());
    headers.push(KvPair { key: auth_name, value: out.authorization });
    proof {
        assert(pairs_view(headers@) =~= spec_sent_headers(
            spec_signing_headers(
                extra0,
                host@,
                amz_date@,
                match creds.session_token {
                    Some(t) => Some(t@),
                    None => None,
                },
            ),
            spec_request_authorization(
                method@,
                path@,
                pairs_view(ctx.query_params@),
                spec_signing_headers(
                    extra0,
                    host@,
                    amz_date@,
                    match creds.session_token {
                        Some(t) => Some(t@),
                        None => None,
                    },
                ),
                body@,
                region@,
                service@,
                amz_date@,
                *creds,
            ),
        ));
    }

    SignedRequest { method: ctx.method, url, headers, body: copy_bytes(body) }
}

/// Copies a byte slice into a fresh vector.
pub fn copy_bytes(data: &[u8]) -> (r: Vec<u8>)
    ensures
        r@ == data@,
{
    let mut r: Vec<u8> = Vec::new();
    push_bytes(&mut r, data);
    proof {
        assert(r@ =~= data@);
    }
    r
}

/// Classifies an exchange's outcome: a success status passes the body
/// through, anything else is an HTTP-level failure carrying the status and
/// the body for diagnostics.
pub fn response_outcome(status: u16, body: String) -> (r: Result<String, RequestError>)
    ensures
        200 <= status < 300 <==> r is Ok,
        r is Ok ==> r->Ok_0@ == body@,
        !(200 <= status < 300) ==> (r matches Err(RequestError::Http { status: s, body: b })
            && s == status && b@ == body@),
{
    if 200 <= status && status < 300 {
        Ok(body)
    } else {
        Err(RequestError::Http { status, body })
    }
}

/// The region a bucket-lookup response names: the region header's value, or
/// the primary region when the response carries none.
pub fn bucket_region_from_header(value: Option<&str>) -> (r: String)
    ensures
        match value {
            Some(v) => r@ == v@,
            None => r@ == "us-east-1"@,
        },
{
    match value {
        Some(v) => v.to_owned(),
        None => "us-east-1".to_owned(),
    }
}


/// Renders the form-encoded body of a query-dialect request.
fn query_body(action: &[u8], params: Vec<KvPair>) -> (b: Vec<u8>)
    ensures
        b@ == spec_canonical_query(spec_query_body_pairs(action@, pairs_view(params@))),
{
    let ghost params0 = pairs_view(params@);
    let mut pairs = params;
    let mut action_name: Vec<u8> = Vec::new();
    push_bytes(&mut action_name, "Action".as_bytes());
    let action_value = copy_bytes(action);
    pairs.insert(0, KvPair { key: action_name, value: action_value });
    proof {
        assert(pairs_view(pairs@) =~= spec_query_body_pairs(action@, params0));
    }
    canonical_query_string(&pairs)
}

/// One query-dialect pair list: the operation name under `Action`, then the
/// caller's parameters.
pub open spec fn spec_query_body_pairs(action: Seq<u8>, params: Seq<(Seq<u8>, Seq<u8>)>) -> Seq<
    (Seq<u8>, Seq<u8>),
> {
    seq![(("Action").spec_bytes(), action)] + params
}

/// Builds a form-query request: the parameters, with the operation name as
/// `Action`, form-url-encoded into a POST body; the response is XML.
pub fn build_query_request(
    service: &[u8],
    action: &[u8],
    params: Vec<KvPair>,
    region: &[u8],
    creds: &Credentials,
    amz_date: &[u8],
    endpoint_override: Option<&Vec<u8>>,
) -> (r: SignedRequest)
    requires
        amz_date@.len() >= 8,
    ensures
        request_built(
            r,
            ("POST").spec_bytes(),
            spec_endpoint_base(
                match endpoint_override {
                    Some(u) => Some(u@),
                    None => None,
                },
                spec_service_host(service@, region@),
            ),
            spec_service_host(service@, region@),
            ("/").spec_bytes(),
            Seq::empty(),
            seq![
                (
                    ("content-type").spec_bytes(),
                    ("application/x-www-form-urlencoded").spec_bytes(),
                ),
            ],
            spec_canonical_query(spec_query_body_pairs(action@, pairs_view(params@))),
            service@,
            spec_signing_region(service@, region@),
            amz_date@,
            *creds,
        ),
{
    let body = query_body(action, params);
    let host = host_for_service(service, region);
    let base = endpoint_base(endpoint_override, host.as_slice());
    let sregion = signing_region(service, region);

    let mut extra: Vec<KvPair> = Vec::new();
    let mut ct_name: Vec<u8> = Vec::new();
    push_bytes(&mut ct_name, "content-type".as_bytes());
    let mut ct_value: Vec<u8> = Vec::new();
    push_bytes(&mut ct_value, "application/x-www-form-urlencoded".as_bytes());
    extra.push(KvPair { key: ct_name, value: ct_value });
    proof {
        assert(pairs_view(extra@) =~= seq![
            (
                ("content-type").spec_bytes(),
                ("application/x-www-form-urlencoded").spec_bytes(),
            ),
        ]);
    }

    let empty_query: Vec<KvPair> = Vec::new();
    proof {
        assert(pairs_view(empty_query@) =~= Seq::<(Seq<u8>, Seq<u8>)>::empty());
    }
    build_signed_request(
        "POST".as_bytes(),
        base.as_slice(),
        host.as_slice(),
        "/".as_bytes(),
        empty_query,
        extra,
        body.as_slice(),
        service,
        sregion.as_slice(),
        amz_date,
        creds,
    )
}

/// The JSON-dialect target prefix and content type of a service, when the
/// service speaks that dialect.
pub open spec fn spec_json_target(service: Seq<u8>) -> Option<(Seq<u8>, Seq<u8>)> {
    if service == ("dynamodb").spec_bytes() {
        Some((("DynamoDB_20120810").spec_bytes(), ("application/x-amz-json-1.0").spec_bytes()))
    } else if service == ("ecs").spec_bytes() {
        Some(
            (
                ("AmazonEC2ContainerServiceV20141113").spec_bytes(),
                ("application/x-amz-json-1.1").spec_bytes(),
            ),
        )
    } else if service == ("secretsmanager").spec_bytes() {
        Some((("secretsmanager").spec_bytes(), ("application/x-amz-json-1.1").spec_bytes()))
    } else if service == ("kms").spec_bytes() {
        Some((("TrentService").spec_bytes(), ("application/x-amz-json-1.1").spec_bytes()))
    } else if service == ("logs").spec_bytes() {
        Some((("Logs_20140328").spec_bytes(), ("application/x-amz-json-1.1").spec_bytes()))
    } else {
        None
    }
}

/// The target prefix and content type a JSON-dialect service uses.
fn json_target(service: &[u8]) -> (r: Option<(Vec<u8>, Vec<u8>)>)
    ensures
        match r {
            Some((p, ct)) => spec_json_target(service@) == Some((p@, ct@)),
            None => spec_json_target(service@) is None,
        },
{
    let json10 = "application/x-amz-json-1.0";
    let json11 = "application/x-amz-json-1.1";
    if bytes_eq(service, "dynamodb".as_bytes()) {
        Some((copy_bytes("DynamoDB_20120810".as_bytes()), copy_bytes(json10.as_bytes())))
    } else if bytes_eq(service, "ecs".as_bytes()) {
        Some(
            (
                copy_bytes("AmazonEC2ContainerServiceV20141113".as_bytes()),
                copy_bytes(json11.as_bytes()),
            ),
        )
    } else if bytes_eq(service, "secretsmanager".as_bytes()) {
        Some((copy_bytes("secretsmanager".as_bytes()), copy_bytes(json11.as_bytes())))
    } else if bytes_eq(service, "kms".as_bytes()) {
        Some((copy_bytes("TrentService".as_bytes()), copy_bytes(json11.as_bytes())))
    } else if bytes_eq(service, "logs".as_bytes()) {
        Some((copy_bytes("Logs_20140328".as_bytes()), copy_bytes(json11.as_bytes())))
    } else {
        None
    }
}

/// The value of the target header: the service's prefix, a dot, and the
/// operation name.
pub open spec fn spec_target_value(prefix: Seq<u8>, operation: Seq<u8>) -> Seq<u8> {
    prefix + seq![0x2eu8] + operation
}

/// Builds a JSON-dialect request: a single JSON object body, the operation
/// named in the target header; the response is a raw JSON document. Fails
/// only when the service does not speak this dialect.
pub fn build_json_request(
    service: &[u8],
    operation: &[u8],
    body: &[u8],
    region: &[u8],
    creds: &Credentials,
    amz_date: &[u8],
    endpoint_override: Option<&Vec<u8>>,
) -> (r: Result<SignedRequest, RequestError>)
    requires
        amz_date@.len() >= 8,
    ensures
        r is Ok <==> spec_json_target(service@) is Some,
        r is Ok ==> ({
            let (prefix, content_type) = spec_json_target(service@)->Some_0;
            request_built(
                r->Ok_0,
                ("POST").spec_bytes(),
                spec_endpoint_base(
                    match endpoint_override {
                        Some(u) => Some(u@),
                        None => None,
                    },
                    spec_service_host(service@, region@),
                ),
                spec_service_host(service@, region@),
                ("/").spec_bytes(),
                Seq::empty(),
                seq![
                    (("content-type").spec_bytes(), content_type),
                    (("x-amz-target").spec_bytes(), spec_target_value(prefix, operation@)),
                ],
                body@,
                service@,
                spec_signing_region(service@, region@),
                amz_date@,
                *creds,
            )
        }),
{
    let (prefix, content_type) = match json_target(service) {
        Some(t) => t,
        None => {
            return Err(
                RequestError::UnsupportedService {
                    service: crate::textutil::ascii_or_empty(service),
                },
            );
        },
    };
    let host = host_for_service(service, region);
    let base = endpoint_base(endpoint_override, host.as_slice());
    let sregion = signing_region(service, region);

    let mut target_value: Vec<u8> = Vec::new();
    push_bytes(&mut target_value, prefix.as_slice());
    target_value.push(0x2e);
    push_bytes(&mut target_value, operation);
    proof {
        assert(target_value@ =~= spec_target_value(prefix@, operation@));
    }

    let mut extra: Vec<KvPair> = Vec::new();
    let mut ct_name: Vec<u8> = Vec::new();
    push_bytes(&mut ct_name, "content-type".as_bytes());
    extra.push(KvPair { key: ct_name, value: content_type });
    let mut tg_name: Vec<u8> = Vec::new();
    push_bytes(&mut tg_name, "x-amz-target".as_bytes());
    extra.push(KvPair { key: tg_name, value: target_value });
    proof {
        assert(pairs_view(extra@) =~= seq![
            (("content-type").spec_bytes(), spec_json_target(service@)->Some_0.1),
            (
                ("x-amz-target").spec_bytes(),
                spec_target_value(spec_json_target(service@)->Some_0.0, operation@),
            ),
        ]);
    }

    let empty_query: Vec<KvPair> = Vec::new();
    proof {
        assert(pairs_view(empty_query@) =~= Seq::<(Seq<u8>, Seq<u8>)>::empty());
    }
    Ok(
        build_signed_request(
            "POST".as_bytes(),
            base.as_slice(),
            host.as_slice(),
            "/".as_bytes(),
            empty_query,
            extra,
            body,
            service,
            sregion.as_slice(),
            amz_date,
            creds,
        ),
    )
}

/// Builds a path-based request for the JSON or XML dialect: the method and
/// path name the operation; a JSON body carries its content type; XML-dialect
/// requests also carry the payload hash as a header of its own.
pub fn build_rest_request(
    service: &[u8],
    method: &[u8],
    path: &[u8],
    query: Vec<KvPair>,
    body: Option<&Vec<u8>>,
    json_body: bool,
    xml_dialect: bool,
    host: &[u8],
    region: &[u8],
    creds: &Credentials,
    amz_date: &[u8],
    endpoint_override: Option<&Vec<u8>>,
) -> (r: SignedRequest)
    requires
        amz_date@.len() >= 8,
    ensures
        ({
            let body_bytes = match body {
                Some(b) => b@,
                None => Seq::<u8>::empty(),
            };
            request_built(
                r,
                method@,
                spec_endpoint_base(
                    match endpoint_override {
                        Some(u) => Some(u@),
                        None => None,
                    },
                    host@,
                ),
                host@,
                path@,
                pairs_view(query@),
                spec_rest_extra_headers(body, json_body, xml_dialect, body_bytes),
                body_bytes,
                service@,
                spec_signing_region(service@, region@),
                amz_date@,
                *creds,
            )
        }),
{
    let body_bytes: Vec<u8> = match body {
        Some(b) => copy_bytes(b.as_slice()),
        None => Vec::new(),
    };
    proof {
        assert(body_bytes@ =~= match body {
            Some(b) => b@,
            None => Seq::<u8>::empty(),
        });
    }

    let mut extra: Vec<KvPair> = Vec::new();
    if body.is_some() && json_body {
        let mut ct_name: Vec<u8> = Vec::new();
        push_bytes(&mut ct_name, "content-type".as_bytes());
        let mut ct_value: Vec<u8> = Vec::new();
        push_bytes(&mut ct_value, "application/json".as_bytes());
        extra.push(KvPair { key: ct_name, value: ct_value });
    }
    if xml_dialect {
        let hash = hex_encode(sha256(body_bytes.as_slice()).as_slice());
        let mut h_name: Vec<u8> = Vec::new();
        push_bytes(&mut h_name, "x-amz-content-sha256".as_bytes());
        extra.push(KvPair { key: h_name, value: hash });
    }
    proof {
        assert(pairs_view(extra@) =~= spec_rest_extra_headers(
            body,
            json_body,
            xml_dialect,
            body_bytes@,
        ));
    }

    let base = endpoint_base(endpoint_override, host);
    let sregion = signing_region(service, region);
    build_signed_request(
        method,
        base.as_slice(),
        host,
        path,
        query,
        extra,
        body_bytes.as_slice(),
        service,
        sregion.as_slice(),
        amz_date,
        creds,
    )
}

/// The dialect headers of a path-based request: the JSON content type when a
/// JSON body is present; the payload hash for the XML dialect.
pub open spec fn spec_rest_extra_headers(
    body: Option<&Vec<u8>>,
    json_body: bool,
    xml_dialect: bool,
    body_bytes: Seq<u8>,
) -> Seq<(Seq<u8>, Seq<u8>)> {
    (if body is Some && json_body {
        seq![(("content-type").spec_bytes(), ("application/json").spec_bytes())]
    } else {
        Seq::<(Seq<u8>, Seq<u8>)>::empty()
    }) + if xml_dialect {
        seq![(("x-amz-content-sha256").spec_bytes(), spec_hex(sha256_of(body_bytes)))]
    } else {
        Seq::<(Seq<u8>, Seq<u8>)>::empty()
    }
}


/// Builds a path-based XML request addressed to one bucket's own
/// virtual-hosted host in its region. Buckets are strictly regional: the
/// caller resolves the bucket's region first and passes it here.
pub fn build_bucket_request(
    bucket: &[u8],
    method: &[u8],
    path: &[u8],
    query: Vec<KvPair>,
    body: Option<&Vec<u8>>,
    bucket_region: &[u8],
    creds: &Credentials,
    amz_date: &[u8],
    endpoint_override: Option<&Vec<u8>>,
) -> (r: SignedRequest)
    requires
        amz_date@.len() >= 8,
    ensures
        ({
            let body_bytes = match body {
                Some(b) => b@,
                None => Seq::<u8>::empty(),
            };
            request_built(
                r,
                method@,
                spec_endpoint_base(
                    match endpoint_override {
                        Some(u) => Some(u@),
                        None => None,
                    },
                    crate::endpoint::spec_bucket_host(bucket@, bucket_region@),
                ),
                crate::endpoint::spec_bucket_host(bucket@, bucket_region@),
                path@,
                pairs_view(query@),
                spec_rest_extra_headers(body, false, true, body_bytes),
                body_bytes,
                ("s3").spec_bytes(),
                bucket_region@,
                amz_date@,
                *creds,
            )
        }),
{
    let host = crate::endpoint::host_for_bucket(bucket, bucket_region);
    proof {
        reveal_strlit("s3");
        reveal_strlit("iam");
        vstd::utf8::is_ascii_chars_encode_utf8("s3"@);
        vstd::utf8::is_ascii_chars_encode_utf8("iam"@);
        assert(("s3").spec_bytes().len() == 2);
        assert(("iam").spec_bytes().len() == 3);
        assert(spec_signing_region(("s3").spec_bytes(), bucket_region@) == bucket_region@);
    }
    build_rest_request(
        "s3".as_bytes(),
        method,
        path,
        query,
        body,
        false,
        true,
        host.as_slice(),
        bucket_region,
        creds,
        amz_date,
        endpoint_override,
    )
}

} // verus!
