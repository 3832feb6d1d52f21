//! The dialect builders, endpoint resolution, response classification, and
//! the display formatters.

use awscore::canonical::KvPair;
use awscore::credentials::Credentials;
use awscore::display::{format_bytes, format_cell_value, truncate_string};
use awscore::endpoint::{endpoint_base, host_for_bucket, host_for_service};
use awscore::request::{
    build_bucket_request, build_json_request, build_query_request, build_rest_request,
    bucket_region_from_header, response_outcome, RequestError,
};
use awscore::timefmt::{
    amz_date_bytes, civil_from_epoch, format_epoch_millis, format_log_timestamp, UtcTimestamp,
};

fn fixture_credentials() -> Credentials {
    Credentials {
        access_key_id: "AKIDEXAMPLE".to_string(),
        secret_access_key: "wJalrXUtnFEMI/K7MDENG+bPxRfiCYEXAMPLEKEY".to_string(),
        session_token: None,
    }
}

fn header<'a>(headers: &'a [KvPair], name: &[u8]) -> &'a [u8] {
    headers
        .iter()
        .find(|h| h.key == name.to_vec())
        .map(|h| h.value.as_slice())
        .expect("header present")
}

#[test]
fn query_request_is_signed_byte_exactly() {
    let req = build_query_request(
        b"ec2",
        b"DescribeInstances",
        Vec::new(),
        b"us-west-2",
        &fixture_credentials(),
        b"20150830T123600Z",
        None,
    );
    assert_eq!(req.method, b"POST".to_vec());
    assert_eq!(req.url, b"https://ec2.us-west-2.amazonaws.com/".to_vec());
    assert_eq!(req.body, b"Action=DescribeInstances".to_vec());
    assert_eq!(
        header(&req.headers, b"content-type"),
        b"application/x-www-form-urlencoded"
    );
    assert_eq!(header(&req.headers, b"host"), b"ec2.us-west-2.amazonaws.com");
    assert_eq!(header(&req.headers, b"x-amz-date"), b"20150830T123600Z");
    let expected_auth = b"AWS4-HMAC-SHA256 Credential=AKIDEXAMPLE/20150830/us-west-2/ec2/aws4_request, SignedHeaders=content-type;host;x-amz-date, Signature=e8a5ad5775063251b2d45e1638c2d936dbeb01eb6a37da97485aa60586d36f07".to_vec();
    assert_eq!(header(&req.headers, b"authorization"), expected_auth.as_slice());
}

#[test]
fn query_request_parameters_reach_the_body_sorted() {
    let params = vec![
        KvPair { key: b"InstanceId.1".to_vec(), value: b"i-123".to_vec() },
        KvPair { key: b"DryRun".to_vec(), value: b"true".to_vec() },
    ];
    let req = build_query_request(
        b"ec2",
        b"StartInstances",
        params,
        b"us-east-1",
        &fixture_credentials(),
        b"20150830T123600Z",
        None,
    );
    assert_eq!(
        req.body,
        b"Action=StartInstances&DryRun=true&InstanceId.1=i-123".to_vec()
    );
}

#[test]
fn iam_signs_with_the_primary_region_and_a_global_host() {
    let req = build_query_request(
        b"iam",
        b"ListUsers",
        Vec::new(),
        b"eu-central-1",
        &fixture_credentials(),
        b"20150830T123600Z",
        None,
    );
    assert_eq!(req.url, b"https://iam.amazonaws.com/".to_vec());
    let auth = header(&req.headers, b"authorization").to_vec();
    let auth_text = String::from_utf8(auth).unwrap();
    assert!(auth_text.contains("/20150830/us-east-1/iam/aws4_request"));
}

#[test]
fn json_request_carries_the_target_header() {
    let req = build_json_request(
        b"dynamodb",
        b"ListTables",
        b"{}",
        b"us-west-2",
        &fixture_credentials(),
        b"20150830T123600Z",
        None,
    )
    .expect("dynamodb speaks the JSON dialect");
    assert_eq!(req.method, b"POST".to_vec());
    assert_eq!(header(&req.headers, b"x-amz-target"), b"DynamoDB_20120810.ListTables");
    assert_eq!(header(&req.headers, b"content-type"), b"application/x-amz-json-1.0");
    assert_eq!(req.body, b"{}".to_vec());
}

#[test]
fn json_request_refuses_a_service_without_the_dialect() {
    let r = build_json_request(
        b"ec2",
        b"DescribeInstances",
        b"{}",
        b"us-west-2",
        &fixture_credentials(),
        b"20150830T123600Z",
        None,
    );
    assert!(matches!(r, Err(RequestError::UnsupportedService { .. })));
}

#[test]
fn rest_request_encodes_path_and_query() {
    let query = vec![
        KvPair { key: b"list-type".to_vec(), value: b"2".to_vec() },
        KvPair { key: b"delimiter".to_vec(), value: b"/".to_vec() },
    ];
    let req = build_rest_request(
        b"s3",
        b"GET",
        b"/my key",
        query,
        None,
        false,
        true,
        b"bucket.s3.amazonaws.com",
        b"us-east-1",
        &fixture_credentials(),
        b"20150830T123600Z",
        None,
    );
    assert_eq!(
        req.url,
        b"https://bucket.s3.amazonaws.com/my%20key?delimiter=%2F&list-type=2".to_vec()
    );
    // The XML dialect carries the payload hash of the empty body.
    assert_eq!(
        header(&req.headers, b"x-amz-content-sha256"),
        b"e3b0c44298fc1c149afbf4c8996fb92427ae41e4649b934ca495991b7852b855"
    );
}

#[test]
fn rest_json_body_carries_its_content_type() {
    let body = b"{\"k\":1}".to_vec();
    let req = build_rest_request(
        b"lambda",
        b"POST",
        b"/2015-03-31/functions/f/invocations",
        Vec::new(),
        Some(&body),
        true,
        false,
        b"lambda.us-west-2.amazonaws.com",
        b"us-west-2",
        &fixture_credentials(),
        b"20150830T123600Z",
        None,
    );
    assert_eq!(header(&req.headers, b"content-type"), b"application/json");
    assert_eq!(req.body, body);
}

#[test]
fn endpoint_override_replaces_scheme_and_host() {
    let over = b"http://localhost:4566".to_vec();
    let req = build_query_request(
        b"sqs",
        b"ListQueues",
        Vec::new(),
        b"us-east-1",
        &fixture_credentials(),
        b"20150830T123600Z",
        Some(&over),
    );
    assert_eq!(req.url, b"http://localhost:4566/".to_vec());
    // The host header still names the real service host that was signed.
    assert_eq!(header(&req.headers, b"host"), b"sqs.us-east-1.amazonaws.com");
}

#[test]
fn hosts_resolve_by_service_region_and_bucket() {
    assert_eq!(host_for_service(b"ec2", b"us-west-2"), b"ec2.us-west-2.amazonaws.com".to_vec());
    assert_eq!(host_for_service(b"iam", b"us-west-2"), b"iam.amazonaws.com".to_vec());
    assert_eq!(host_for_service(b"s3", b"us-east-1"), b"s3.amazonaws.com".to_vec());
    assert_eq!(host_for_service(b"s3", b"eu-west-1"), b"s3.eu-west-1.amazonaws.com".to_vec());
    assert_eq!(
        host_for_bucket(b"my-bucket", b"eu-west-1"),
        b"my-bucket.s3.eu-west-1.amazonaws.com".to_vec()
    );
    assert_eq!(endpoint_base(None, b"h.example"), b"https://h.example".to_vec());
}

#[test]
fn response_outcome_classifies_by_status() {
    assert_eq!(response_outcome(200, "ok".to_string()).unwrap(), "ok");
    assert_eq!(response_outcome(299, "ok".to_string()).unwrap(), "ok");
    match response_outcome(404, "missing".to_string()) {
        Err(RequestError::Http { status, body }) => {
            assert_eq!(status, 404);
            assert_eq!(body, "missing");
        },
        _ => panic!("a 404 is an HTTP-level failure"),
    }
    assert!(response_outcome(301, String::new()).is_err());
    assert!(response_outcome(199, String::new()).is_err());
}

#[test]
fn bucket_requests_use_virtual_hosted_addressing() {
    let query = vec![KvPair { key: b"versioning".to_vec(), value: b"".to_vec() }];
    let req = build_bucket_request(
        b"my-bucket",
        b"GET",
        b"/",
        query,
        None,
        b"eu-west-1",
        &fixture_credentials(),
        b"20150830T123600Z",
        None,
    );
    assert_eq!(
        req.url,
        b"https://my-bucket.s3.eu-west-1.amazonaws.com/?versioning=".to_vec()
    );
    let auth = String::from_utf8(header(&req.headers, b"authorization").to_vec()).unwrap();
    assert!(auth.contains("/20150830/eu-west-1/s3/aws4_request"));
    assert_eq!(header(&req.headers, b"host"), b"my-bucket.s3.eu-west-1.amazonaws.com");
}

#[test]
fn bucket_region_defaults_to_the_primary_region() {
    assert_eq!(bucket_region_from_header(Some("eu-west-1")), "eu-west-1");
    assert_eq!(bucket_region_from_header(None), "us-east-1");
}

#[test]
fn amz_date_renders_sixteen_bytes() {
    let ts = UtcTimestamp { year: 2015, month: 8, day: 30, hour: 12, minute: 36, second: 0 };
    assert_eq!(amz_date_bytes(&ts), b"20150830T123600Z".to_vec());
}

#[test]
fn epoch_seconds_convert_to_the_civil_timestamp() {
    // 2015-08-30T12:36:00Z
    let ts = civil_from_epoch(1440938160);
    assert_eq!(amz_date_bytes(&ts), b"20150830T123600Z".to_vec());
    let zero = civil_from_epoch(0);
    assert_eq!(amz_date_bytes(&zero), b"19700101T000000Z".to_vec());
}

#[test]
fn epoch_millis_format_uses_flat_year_arithmetic() {
    assert_eq!(format_epoch_millis(1705312496789), "2024-01-28 09:54:56");
    assert_eq!(format_epoch_millis(0), "1970-01-01 00:00:00");
    assert_eq!(format_log_timestamp(1705312496789), "2024-01-28 09:54:56");
}

#[test]
fn byte_counts_scale_to_their_largest_unit() {
    assert_eq!(format_bytes(0), "0 B");
    assert_eq!(format_bytes(500), "500 B");
    assert_eq!(format_bytes(1024), "1.0 KB");
    assert_eq!(format_bytes(1536), "1.5 KB");
    assert_eq!(format_bytes(1048576), "1.0 MB");
    assert_eq!(format_bytes(123456789), "117.7 MB");
    assert_eq!(format_bytes(1073741824), "1.0 GB");
    assert_eq!(format_bytes(1099511627776), "1.0 TB");
}

#[test]
fn transitional_states_gain_a_marker_in_colored_columns() {
    assert_eq!(format_cell_value("Pending", true), "Pending \u{21bb}");
    assert_eq!(format_cell_value("shutting-down", true), "shutting-down \u{21bb}");
    assert_eq!(format_cell_value("running", true), "running");
    assert_eq!(format_cell_value("Pending", false), "Pending");
}

#[test]
fn truncation_keeps_a_prefix_and_adds_an_ellipsis() {
    assert_eq!(truncate_string("short", 10), "short");
    assert_eq!(truncate_string("exactly-10", 10), "exactly-10");
    assert_eq!(truncate_string("a-longer-value", 10), "a-longe...");
}
