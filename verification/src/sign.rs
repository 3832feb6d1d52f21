//! The canonical request signer: a keyed-HMAC chain over a canonicalized
//! request, binding each request to a day, region and service.

use vstd::prelude::*;
use vstd::string::StringSliceAdditionalSpecFns;
use vstd::utf8::encode_utf8;
use crate::canonical::{
    canonical_headers, canonical_query_string, pairs_view, spec_canonical_headers,
    spec_canonical_query, spec_signed_headers, KvPair,
};
use crate::credentials::Credentials;
use crate::digest::{hmac_sha256, hmac_sha256_of, sha256, sha256_of};
use crate::textutil::{hex_encode, spec_hex};

verus! {

/// Everything the signing algorithm reads, derived fresh per request.
/// `canonical_uri` is the already percent-encoded path; `payload_hash` is the
/// lowercase hex SHA-256 of the request body; `amz_date` is the request
/// timestamp as `YYYYMMDDTHHMMSSZ`.
pub struct SigningContext {
    pub method: Vec<u8>,
    pub canonical_uri: Vec<u8>,
    pub query_params: Vec<KvPair>,
    pub headers: Vec<KvPair>,
    pub payload_hash: Vec<u8>,
    pub region: Vec<u8>,
    pub service: Vec<u8>,
    pub amz_date: Vec<u8>,
}

/// The headers that authenticate a request.
pub struct SigningOutput {
    pub authorization: Vec<u8>,
    pub x_amz_date: Vec<u8>,
    pub x_amz_security_token: Option<Vec<u8>>,
}

/// A single newline byte.
pub open spec fn nl() -> Seq<u8> {
    seq![0x0au8]
}

/// A single slash byte.
pub open spec fn slash_byte() -> Seq<u8> {
    seq![0x2fu8]
}

/// The canonical request: method, canonical URI, canonical query string,
/// canonical headers, signed-headers list, and the payload hash, one per
/// line.
pub open spec fn spec_canonical_request(
    method: Seq<u8>,
    uri: Seq<u8>,
    query: Seq<(Seq<u8>, Seq<u8>)>,
    headers: Seq<(Seq<u8>, Seq<u8>)>,
    payload_hash: Seq<u8>,
) -> Seq<u8> {
    method + nl() + uri + nl() + spec_canonical_query(query) + nl() + spec_canonical_headers(
        headers,
    ) + nl() + spec_signed_headers(headers) + nl() + payload_hash
}

/// The credential scope `date/region/service/aws4_request`.
pub open spec fn spec_credential_scope(date: Seq<u8>, region: Seq<u8>, service: Seq<u8>) -> Seq<
    u8,
> {
    date + slash_byte() + region + slash_byte() + service + slash_byte()
        + ("aws4_request").spec_bytes()
}

/// The string to sign: algorithm identifier, timestamp, scope, and the hex
/// SHA-256 of the canonical request.
pub open spec fn spec_string_to_sign(
    amz_date: Seq<u8>,
    scope: Seq<u8>,
    canonical_request: Seq<u8>,
) -> Seq<u8> {
    ("AWS4-HMAC-SHA256").spec_bytes() + nl() + amz_date + nl() + scope + nl() + spec_hex(
        sha256_of(canonical_request),
    )
}

/// The derived signing key: four chained HMAC-SHA-256 steps seeded from the
/// secret key, over the date, region, service, and scope terminator.
pub open spec fn spec_signing_key(
    secret: Seq<u8>,
    date: Seq<u8>,
    region: Seq<u8>,
    service: Seq<u8>,
) -> Seq<u8> {
    hmac_sha256_of(
        hmac_sha256_of(
            hmac_sha256_of(hmac_sha256_of(("AWS4").spec_bytes() + secret, date), region),
            service,
        ),
        ("aws4_request").spec_bytes(),
    )
}

/// The request signature: lowercase hex of the HMAC of the string to sign
/// under the derived signing key. The date of the scope is the first eight
/// bytes of the timestamp.
pub open spec fn spec_signature(
    method: Seq<u8>,
    uri: Seq<u8>,
    query: Seq<(Seq<u8>, Seq<u8>)>,
    headers: Seq<(Seq<u8>, Seq<u8>)>,
    payload_hash: Seq<u8>,
    region: Seq<u8>,
    service: Seq<u8>,
    amz_date: Seq<u8>,
    secret: Seq<u8>,
) -> Seq<u8> {
    spec_hex(
        hmac_sha256_of(
            spec_signing_key(secret, amz_date.take(8), region, service),
            spec_string_to_sign(
                amz_date,
                spec_credential_scope(amz_date.take(8), region, service),
                spec_canonical_request(method, uri, query, headers, payload_hash),
            ),
        ),
    )
}

/// The authorization header composed from the algorithm, the access key and
/// scope, the signed-headers list, and the signature.
pub open spec fn spec_authorization_header(
    access_key: Seq<u8>,
    scope: Seq<u8>,
    signed_headers: Seq<u8>,
    signature: Seq<u8>,
) -> Seq<u8> {
    ("AWS4-HMAC-SHA256 Credential=").spec_bytes() + access_key + slash_byte() + scope + (
    ", SignedHeaders=").spec_bytes() + signed_headers + (", Signature=").spec_bytes() + signature
}

/// Appends a byte slice to a byte vector.
pub fn push_bytes(out: &mut Vec<u8>, data: &[u8])
    ensures
        final(out)@ == old(out)@ + data@,
{
    let n = data.len();
    for i in 0..n
        invariant
            n == data@.len(),
            out@ =~= old(out)@ + data@.take(i as int),
    {
        out.push(data[i]);
        proof {
            assert(old(out)@ + data@.take(i + 1) =~= (old(out)@ + data@.take(i as int)).push(
                data@[i as int],
            ));
        }
    }
    proof {
        assert(old(out)@ + data@.take(n as int) =~= old(out)@ + data@);
    }
}

/// Builds the canonical request for a signing context.
pub fn build_canonical_request(ctx: &SigningContext) -> (r: Vec<u8>)
    ensures
        r@ == spec_canonical_request(
            ctx.method@,
            ctx.canonical_uri@,
            pairs_view(ctx.query_params@),
            pairs_view(ctx.headers@),
            ctx.payload_hash@,
        ),
{
    let cq = canonical_query_string(&ctx.query_params);
    let (ch, shl) = canonical_headers(&ctx.headers);
    let mut r: Vec<u8> = Vec::new();
    push_bytes(&mut r, ctx.method.as_slice());
    r.push(0x0a);
    push_bytes(&mut r, ctx.canonical_uri.as_slice());
    r.push(0x0a);
    push_bytes(&mut r, cq.as_slice());
    r.push(0x0a);
    push_bytes(&mut r, ch.as_slice());
    r.push(0x0a);
    push_bytes(&mut r, shl.as_slice());
    r.push(0x0a);
    push_bytes(&mut r, ctx.payload_hash.as_slice());
    proof {
        assert(r@ =~= spec_canonical_request(
            ctx.method@,
            ctx.canonical_uri@,
            pairs_view(ctx.query_params@),
            pairs_view(ctx.headers@),
            ctx.payload_hash@,
        ));
    }
    r
}

/// Signs a request: computes the signature over the canonical request and
/// composes the authenticating headers. Identical inputs, the timestamp
/// included, always yield identical output.
pub fn sign(ctx: &SigningContext, creds: &Credentials) -> (out: SigningOutput)
    requires
        ctx.amz_date@.len() >= 8,
    ensures
        out.authorization@ == spec_authorization_header(
            encode_utf8(creds.access_key_id@),
            spec_credential_scope(ctx.amz_date@.take(8), ctx.region@, ctx.service@),
            spec_signed_headers(pairs_view(ctx.headers@)),
            spec_signature(
                ctx.method@,
                ctx.canonical_uri@,
                pairs_view(ctx.query_params@),
                pairs_view(ctx.headers@),
                ctx.payload_hash@,
                ctx.region@,
                ctx.service@,
                ctx.amz_date@,
                encode_utf8(creds.secret_access_key@),
            ),
        ),
        out.x_amz_date@ == ctx.amz_date@,
        out.x_amz_security_token is Some <==> creds.session_token is Some,
        creds.session_token is Some ==> out.x_amz_security_token->Some_0@ == encode_utf8(
            creds.session_token->Some_0@,
        ),
{
    let canonical_request = build_canonical_request(ctx);
    let cr_hash = sha256(canonical_request.as_slice());
    let cr_hash_hex = hex_encode(cr_hash.as_slice());

    let mut date: Vec<u8> = Vec::new();
    for i in 0..8usize
        invariant
            ctx.amz_date@.len() >= 8,
            date@ =~= ctx.amz_date@.take(i as int),
    {
        date.push(ctx.amz_date[i]);
    }

    let mut scope: Vec<u8> = Vec::new();
    push_bytes(&mut scope, date.as_slice());
    scope.push(0x2f);
    push_bytes(&mut scope, ctx.region.as_slice());
    scope.push(0x2f);
    push_bytes(&mut scope, ctx.service.as_slice());
    scope.push(0x2f);
    push_bytes(&mut scope, "aws4_request".as_bytes());
    proof {
        assert(scope@ =~= spec_credential_scope(ctx.amz_date@.take(8), ctx.region@, ctx.service@));
    }

    let mut string_to_sign: Vec<u8> = Vec::new();
    push_bytes(&mut string_to_sign, "AWS4-HMAC-SHA256".as_bytes());
    string_to_sign.push(0x0a);
    push_bytes(&mut string_to_sign, ctx.amz_date.as_slice());
    string_to_sign.push(0x0a);
    push_bytes(&mut string_to_sign, scope.as_slice());
    string_to_sign.push(0x0a);
    push_bytes(&mut string_to_sign, cr_hash_hex.as_slice());
    proof {
        assert(string_to_sign@ =~= spec_string_to_sign(
            ctx.amz_date@,
            scope@,
            canonical_request@,
        ));
    }

    let mut seed: Vec<u8> = Vec::new();
    push_bytes(&mut seed, "AWS4".as_bytes());
    push_bytes(&mut seed, creds.secret_access_key.as_str().as_bytes());
    proof {
        assert(seed@ =~= ("AWS4").spec_bytes() + encode_utf8(creds.secret_access_key@));
    }
    let k_date = hmac_sha256(seed.as_slice(), date.as_slice());
    let k_region = hmac_sha256(k_date.as_slice(), ctx.region.as_slice());
    let k_service = hmac_sha256(k_region.as_slice(), ctx.service.as_slice());
    let k_signing = hmac_sha256(k_service.as_slice(), "aws4_request".as_bytes());

    let signature = hex_encode(hmac_sha256(k_signing.as_slice(), string_to_sign.as_slice()).as_slice());

    let (_ch, shl) = canonical_headers(&ctx.headers);
    let mut authorization: Vec<u8> = Vec::new();
    push_bytes(&mut authorization, "AWS4-HMAC-SHA256 Credential=".as_bytes());
    push_bytes(&mut authorization, creds.access_key_id.as_str().as_bytes());
    authorization.push(0x2f);
    push_bytes(&mut authorization, scope.as_slice());
    push_bytes(&mut authorization, ", SignedHeaders=".as_bytes());
    push_bytes(&mut authorization, shl.as_slice());
    push_bytes(&mut authorization, ", Signature=".as_bytes());
    push_bytes(&mut authorization, signature.as_slice());
    proof {
        assert(authorization@ =~= spec_authorization_header(
            encode_utf8(creds.access_key_id@),
            spec_credential_scope(ctx.amz_date@.take(8), ctx.region@, ctx.service@),
            spec_signed_headers(pairs_view(ctx.headers@)),
            spec_signature(
                ctx.method@,
                ctx.canonical_uri@,
                pairs_view(ctx.query_params@),
                pairs_view(ctx.headers@),
                ctx.payload_hash@,
                ctx.region@,
                ctx.service@,
                ctx.amz_date@,
                encode_utf8(creds.secret_access_key@),
            ),
        ));
    }

    let x_amz_security_token = match &creds.session_token {
        Some(token) => {
            let mut t: Vec<u8> = Vec::new();
            push_bytes(&mut t, token.as_str().as_bytes());
            Some(t)
        },
        None => None,
    };

    let mut x_amz_date: Vec<u8> = Vec::new();
    push_bytes(&mut x_amz_date, ctx.amz_date.as_slice());

    SigningOutput { authorization, x_amz_date, x_amz_security_token }
}

/// Signing is deterministic: for one set of inputs (timestamp included) the
/// signature is a single value, so repeated calls return byte-identical
/// output.
pub proof fn lemma_signing_deterministic(
    method: Seq<u8>,
    uri: Seq<u8>,
    query: Seq<(Seq<u8>, Seq<u8>)>,
    headers: Seq<(Seq<u8>, Seq<u8>)>,
    payload_hash: Seq<u8>,
    region: Seq<u8>,
    service: Seq<u8>,
    amz_date: Seq<u8>,
    secret: Seq<u8>,
    r1: Seq<u8>,
    r2: Seq<u8>,
)
    requires
        r1 == spec_signature(method, uri, query, headers, payload_hash, region, service, amz_date, secret),
        r2 == spec_signature(method, uri, query, headers, payload_hash, region, service, amz_date, secret),
    ensures
        r1 == r2,
{
}

} // verus!
