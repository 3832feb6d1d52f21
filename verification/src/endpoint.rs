//! The endpoint resolver: the host a request is sent to, derived from the
//! service, the region, and — for object-storage buckets — the bucket's own
//! virtual-hosted addressing; an override endpoint replaces the scheme and
//! host wholesale, for local emulation.

use vstd::prelude::*;
use vstd::string::StringSliceAdditionalSpecFns;
use crate::sign::push_bytes;
use crate::textutil::bytes_eq;

verus! {

/// A service addressed without a region in its host; it signs with the
/// primary region instead.
pub open spec fn spec_is_global_service(service: Seq<u8>) -> bool {
    service == ("iam").spec_bytes()
}

/// The region a request is signed with: the primary region for a global
/// service, the caller's region otherwise.
pub open spec fn spec_signing_region(service: Seq<u8>, region: Seq<u8>) -> Seq<u8> {
    if spec_is_global_service(service) {
        ("us-east-1").spec_bytes()
    } else {
        region
    }
}

/// The object-storage host for a region; the primary region keeps the bare
/// legacy host.
pub open spec fn spec_s3_host(region: Seq<u8>) -> Seq<u8> {
    if region == ("us-east-1").spec_bytes() {
        ("s3.amazonaws.com").spec_bytes()
    } else {
        ("s3.").spec_bytes() + region + (".amazonaws.com").spec_bytes()
    }
}

/// The host a service is addressed at in a region.
pub open spec fn spec_service_host(service: Seq<u8>, region: Seq<u8>) -> Seq<u8> {
    if service == ("iam").spec_bytes() {
        ("iam.amazonaws.com").spec_bytes()
    } else if service == ("s3").spec_bytes() {
        spec_s3_host(region)
    } else {
        service + (".").spec_bytes() + region + (".amazonaws.com").spec_bytes()
    }
}

/// The virtual-hosted-style host of a bucket in a region.
pub open spec fn spec_bucket_host(bucket: Seq<u8>, region: Seq<u8>) -> Seq<u8> {
    bucket + (".").spec_bytes() + spec_s3_host(region)
}

/// The region a request to this service is signed with.
pub fn signing_region(service: &[u8], region: &[u8]) -> (r: Vec<u8>)
    ensures
        r@ == spec_signing_region(service@, region@),
{
    if bytes_eq(service, "iam".as_bytes()) {
        let mut v: Vec<u8> = Vec::new();
        push_bytes(&mut v, "us-east-1".as_bytes());
        proof {
            assert(v@ =~= ("us-east-1").spec_bytes());
        }
        v
    } else {
        let mut v: Vec<u8> = Vec::new();
        push_bytes(&mut v, region);
        proof {
            assert(v@ =~= region@);
        }
        v
    }
}

/// The object-storage host for a region.
pub fn s3_host(region: &[u8]) -> (r: Vec<u8>)
    ensures
        r@ == spec_s3_host(region@),
{
    let mut v: Vec<u8> = Vec::new();
    if bytes_eq(region, "us-east-1".as_bytes()) {
        push_bytes(&mut v, "s3.amazonaws.com".as_bytes());
        proof {
            assert(v@ =~= ("s3.amazonaws.com").spec_bytes());
        }
    } else {
        push_bytes(&mut v, "s3.".as_bytes());
        push_bytes(&mut v, region);
        push_bytes(&mut v, ".amazonaws.com".as_bytes());
        proof {
            assert(v@ =~= ("s3.").spec_bytes() + region@ + (".amazonaws.com").spec_bytes());
        }
    }
    v
}

/// The host a service is addressed at in a region.
pub fn host_for_service(service: &[u8], region: &[u8]) -> (r: Vec<u8>)
    ensures
        r@ == spec_service_host(service@, region@),
{
    if bytes_eq(service, "iam".as_bytes()) {
        let mut v: Vec<u8> = Vec::new();
        push_bytes(&mut v, "iam.amazonaws.com".as_bytes());
        proof {
            assert(v@ =~= ("iam.amazonaws.com").spec_bytes());
        }
        v
    } else if bytes_eq(service, "s3".as_bytes()) {
        s3_host(region)
    } else {
        let mut v: Vec<u8> = Vec::new();
        push_bytes(&mut v, service);
        push_bytes(&mut v, ".".as_bytes());
        push_bytes(&mut v, region);
        push_bytes(&mut v, ".amazonaws.com".as_bytes());
        proof {
            assert(v@ =~= service@ + (".").spec_bytes() + region@ + (".amazonaws.com").spec_bytes());
        }
        v
    }
}

/// The virtual-hosted-style host of a bucket in a region.
pub fn host_for_bucket(bucket: &[u8], region: &[u8]) -> (r: Vec<u8>)
    ensures
        r@ == spec_bucket_host(bucket@, region@),
{
    let mut v: Vec<u8> = Vec::new();
    push_bytes(&mut v, bucket);
    push_bytes(&mut v, ".".as_bytes());
    let mut h = s3_host(region);
    push_bytes(&mut v, h.as_slice());
    proof {
        assert(v@ =~= spec_bucket_host(bucket@, region@));
    }
    v
}

/// The base an override endpoint replaces: the URL up to the path. Without
/// an override the host is addressed over HTTPS.
pub open spec fn spec_endpoint_base(override_url: Option<Seq<u8>>, host: Seq<u8>) -> Seq<u8> {
    match override_url {
        Some(url) => url,
        None => ("https://").spec_bytes() + host,
    }
}

/// The base URL requests are sent to.
pub fn endpoint_base(override_url: Option<&Vec<u8>>, host: &[u8]) -> (r: Vec<u8>)
    ensures
        r@ == spec_endpoint_base(
            match override_url {
                Some(u) => Some(u@),
                None => None,
            },
            host@,
        ),
{
    match override_url {
        Some(u) => {
            let mut v: Vec<u8> = Vec::new();
            push_bytes(&mut v, u.as_slice());
            proof {
                assert(v@ =~= u@);
            }
            v
        },
        None => {
            let mut v: Vec<u8> = Vec::new();
            push_bytes(&mut v, "https://".as_bytes());
            push_bytes(&mut v, host);
            proof {
                assert(v@ =~= ("https://").spec_bytes() + host@);
            }
            v
        },
    }
}

} // verus!
