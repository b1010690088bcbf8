//! Tests of the media-download endpoint: encoding, decoding, the
//! convenience constructors, and the end-to-end scenario.

use matrix_endpoint::error::EndpointError;
use matrix_endpoint::header::ContentDisposition;
use matrix_endpoint::header::DispositionType;
use matrix_endpoint::media_download::DEFAULT_DOWNLOAD_TIMEOUT_MS;
use matrix_endpoint::media_download::Request;
use matrix_endpoint::media_download::Response;
use matrix_endpoint::media_download::metadata;
use matrix_endpoint::metadata::AuthRequirement;
use matrix_endpoint::metadata::HttpMethod;
use matrix_endpoint::version::StableVersion;
use matrix_endpoint::wire::WireResponse;

fn sample_request() -> Request {
    Request::new(
        "abc123".to_owned(),
        "example.org".to_owned(),
        "report.pdf".to_owned(),
    )
}

#[test]
fn new_fills_default_timeout() {
    let req = sample_request();
    assert_eq!(req.server_name, "example.org");
    assert_eq!(req.media_id, "abc123");
    assert_eq!(req.filename, "report.pdf");
    assert_eq!(req.timeout_ms, DEFAULT_DOWNLOAD_TIMEOUT_MS);
}

#[test]
fn metadata_flags() {
    let m = metadata();
    assert_eq!(m.method, HttpMethod::Get);
    assert!(m.rate_limited);
    assert_eq!(m.authentication, AuthRequirement::AccessToken);
    assert_eq!(m.history.len(), 2);
}

#[test]
fn encode_uses_stable_path_and_omits_default_timeout() {
    let req = sample_request();
    let w = req.encode(StableVersion::new(1, 11)).unwrap();
    assert_eq!(w.method, HttpMethod::Get);
    assert_eq!(
        w.path,
        "/_matrix/client/v1/media/download/example.org/abc123/report.pdf"
    );
    assert_eq!(w.query, "");
    assert_eq!(w.uri(), w.path);
    assert!(w.headers.is_empty());
    assert!(w.body.is_empty());
}

#[test]
fn encode_uses_unstable_path_below_stable_version() {
    let req = sample_request();
    let w = req.encode(StableVersion::new(1, 5)).unwrap();
    assert_eq!(
        w.path,
        "/_matrix/client/unstable/org.matrix.msc3916/media/download/example.org/abc123/report.pdf"
    );
}

#[test]
fn encode_emits_non_default_timeout() {
    let mut req = sample_request();
    req.timeout_ms = 5000;
    let w = req.encode(StableVersion::new(1, 11)).unwrap();
    assert_eq!(w.query, "timeout_ms=5000");
    assert!(w.uri().ends_with("/report.pdf?timeout_ms=5000"));
}

#[test]
fn encode_percent_encodes_path_fields() {
    let mut req = sample_request();
    req.media_id = "a/b c".to_owned();
    let w = req.encode(StableVersion::new(1, 11)).unwrap();
    assert_eq!(
        w.path,
        "/_matrix/client/v1/media/download/example.org/a%2Fb%20c/report.pdf"
    );
}

#[test]
fn encode_rejects_empty_path_field() {
    let mut req = sample_request();
    req.media_id = String::new();
    let r = req.encode(StableVersion::new(1, 11));
    assert!(matches!(r, Err(EndpointError::MissingPathField(n)) if n == "media_id"));
}

#[test]
fn response_new_leaves_headers_absent() {
    let resp = Response::new(vec![1, 2, 3]);
    assert_eq!(resp.file, vec![1, 2, 3]);
    assert_eq!(resp.content_type, None);
    assert_eq!(resp.content_disposition, None);
    assert_eq!(resp.cross_origin_resource_policy, None);
    assert_eq!(resp.cache_control, None);
}

#[test]
fn decode_reads_headers_and_body() {
    let wire = WireResponse {
        status: 200,
        headers: vec![
            ("content-type".to_owned(), "application/pdf".to_owned()),
            (
                "content-disposition".to_owned(),
                "attachment; filename=\"report.pdf\"".to_owned(),
            ),
            ("cross-origin-resource-policy".to_owned(), "cross-origin".to_owned()),
            ("cache-control".to_owned(), "max-age=86400".to_owned()),
        ],
        body: b"file bytes".to_vec(),
    };
    let resp = Response::decode(&wire).unwrap();
    assert_eq!(resp.file, b"file bytes".to_vec());
    assert_eq!(resp.content_type.as_deref(), Some("application/pdf"));
    assert_eq!(
        resp.content_disposition,
        Some(ContentDisposition {
            disposition: DispositionType::Attachment,
            filename: Some("report.pdf".to_owned()),
        })
    );
    assert_eq!(resp.cross_origin_resource_policy.as_deref(), Some("cross-origin"));
    assert_eq!(resp.cache_control.as_deref(), Some("max-age=86400"));
}

#[test]
fn decode_treats_absent_optional_header_as_absent() {
    let wire = WireResponse {
        status: 200,
        headers: vec![("content-type".to_owned(), "image/png".to_owned())],
        body: Vec::new(),
    };
    let resp = Response::decode(&wire).unwrap();
    assert_eq!(resp.content_disposition, None);
    assert_eq!(resp.cache_control, None);
}

#[test]
fn decode_rejects_malformed_cache_control() {
    let wire = WireResponse {
        status: 200,
        headers: vec![("cache-control".to_owned(), "max-age=\u{1}86400".to_owned())],
        body: Vec::new(),
    };
    let r = Response::decode(&wire);
    assert!(matches!(r, Err(EndpointError::HeaderParseError(n, _)) if n == "cache-control"));
}

#[test]
fn decode_rejects_malformed_content_disposition() {
    let wire = WireResponse {
        status: 200,
        headers: vec![("content-disposition".to_owned(), "attachment; filename=".to_owned())],
        body: Vec::new(),
    };
    let r = Response::decode(&wire);
    assert!(matches!(r, Err(EndpointError::HeaderParseError(n, v))
        if n == "content-disposition" && v == "attachment; filename="));
}

#[test]
fn from_uri_splits_server_and_media_id() {
    let req = Request::from_uri("mxc://example.org/abc123", "report.pdf".to_owned()).unwrap();
    assert_eq!(req.server_name, "example.org");
    assert_eq!(req.media_id, "abc123");
    assert_eq!(req.filename, "report.pdf");
    assert_eq!(req.timeout_ms, DEFAULT_DOWNLOAD_TIMEOUT_MS);
}

#[test]
fn from_uri_accepts_long_media_ids() {
    // The total URI length does not matter, only where the first slash
    // after the scheme sits.
    let media_id: String = std::iter::repeat('x').take(300).collect();
    let uri = format!("mxc://a.b/{media_id}");
    let req = Request::from_uri(&uri, "f".to_owned()).unwrap();
    assert_eq!(req.server_name, "a.b");
    assert_eq!(req.media_id, media_id);
}

#[test]
fn from_uri_rejects_overlong_authority() {
    // The first slash after the scheme sits beyond character position
    // 255, past what the identifier parser's split position can hold.
    let server: String = std::iter::repeat('a').take(300).collect();
    let uri = format!("mxc://{server}/abc");
    let r = Request::from_uri(&uri, "f".to_owned());
    assert!(matches!(r, Err(EndpointError::IdentifierParseError)));
}

#[test]
fn from_uri_rejects_malformed_identifiers() {
    let r = Request::from_uri("https://example.org/abc123", "f".to_owned());
    assert!(matches!(r, Err(EndpointError::IdentifierParseError)));
    let r = Request::from_uri("mxc://example.org", "f".to_owned());
    assert!(matches!(r, Err(EndpointError::IdentifierParseError)));
    let r = Request::from_uri("mxc://example.org/bad id", "f".to_owned());
    assert!(matches!(r, Err(EndpointError::IdentifierParseError)));
}

#[test]
fn end_to_end_download() {
    // Encode a request for the stable version and decode a success
    // response carrying the file back into an equal struct.
    let req = Request::new(
        "abc123".to_owned(),
        "example.org".to_owned(),
        "report.pdf".to_owned(),
    );
    let w = req.encode(StableVersion::new(1, 11)).unwrap();
    assert_eq!(w.method, HttpMethod::Get);
    assert_eq!(
        w.uri(),
        "/_matrix/client/v1/media/download/example.org/abc123/report.pdf"
    );
    assert!(w.body.is_empty());

    let expected = Response {
        file: b"%PDF-1.4 ...".to_vec(),
        content_type: Some("application/pdf".to_owned()),
        content_disposition: Some(ContentDisposition {
            disposition: DispositionType::Attachment,
            filename: Some("report.pdf".to_owned()),
        }),
        cross_origin_resource_policy: None,
        cache_control: None,
    };
    let wire = WireResponse {
        status: 200,
        headers: vec![
            ("content-type".to_owned(), "application/pdf".to_owned()),
            (
                "content-disposition".to_owned(),
                "attachment; filename=\"report.pdf\"".to_owned(),
            ),
        ],
        body: b"%PDF-1.4 ...".to_vec(),
    };
    let decoded = Response::decode(&wire).unwrap();
    assert_eq!(decoded, expected);
}

#[test]
fn timeout_decimal_rendering_is_exact() {
    let mut req = sample_request();
    req.timeout_ms = 1200300;
    let w = req.encode(StableVersion::new(1, 12)).unwrap();
    assert_eq!(w.query, "timeout_ms=1200300");
    req.timeout_ms = 0;
    let w = req.encode(StableVersion::new(1, 12)).unwrap();
    assert_eq!(w.query, "timeout_ms=0");
}
