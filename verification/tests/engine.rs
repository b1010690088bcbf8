//! Tests of the generic marshaling engine: version resolution, path
//! rendering, percent-encoding, and header round trips.

use matrix_endpoint::error::EndpointError;
use matrix_endpoint::header::ContentDisposition;
use matrix_endpoint::header::DispositionType;
use matrix_endpoint::header::parse_disposition;
use matrix_endpoint::header::render_disposition;
use matrix_endpoint::metadata::AuthRequirement;
use matrix_endpoint::metadata::HttpMethod;
use matrix_endpoint::metadata::Metadata;
use matrix_endpoint::metadata::resolve;
use matrix_endpoint::percent::percent_decode;
use matrix_endpoint::percent::percent_encode;
use matrix_endpoint::template::PathTemplate;
use matrix_endpoint::template::Segment;
use matrix_endpoint::template::render;
use matrix_endpoint::version::StableVersion;
use matrix_endpoint::version::VersionTag;
use matrix_endpoint::decode::decode_response;
use matrix_endpoint::encode::encode_request;
use matrix_endpoint::field::FieldMapping;
use matrix_endpoint::field::FieldValue;
use matrix_endpoint::field::Location;
use matrix_endpoint::field::ValueKind;
use matrix_endpoint::wire::WireResponse;

fn version_table() -> Metadata {
    // Templates for stable versions 1.1 and 1.11, and an unstable tag.
    let t = |name: &str| PathTemplate {
        segments: vec![Segment::Literal(name.to_owned())],
    };
    Metadata {
        method: HttpMethod::Get,
        rate_limited: false,
        authentication: AuthRequirement::NoneRequired,
        history: vec![
            (VersionTag::Unstable, t("unstable")),
            (VersionTag::Stable(StableVersion::new(1, 1)), t("v1_1")),
            (VersionTag::Stable(StableVersion::new(1, 11)), t("v1_11")),
        ],
    }
}

fn template_name(meta: &Metadata, idx: usize) -> String {
    match &meta.history[idx].1.segments[0] {
        Segment::Literal(l) => l.clone(),
        Segment::Placeholder(p) => p.clone(),
    }
}

#[test]
fn resolve_picks_greatest_qualifying_stable() {
    let meta = version_table();
    let idx = resolve(&meta, StableVersion::new(1, 5)).unwrap();
    assert_eq!(template_name(&meta, idx), "v1_1");
}

#[test]
fn resolve_picks_exact_stable() {
    let meta = version_table();
    let idx = resolve(&meta, StableVersion::new(1, 11)).unwrap();
    assert_eq!(template_name(&meta, idx), "v1_11");
}

#[test]
fn resolve_falls_back_to_unstable() {
    let meta = version_table();
    let idx = resolve(&meta, StableVersion::new(0, 9)).unwrap();
    assert_eq!(template_name(&meta, idx), "unstable");
}

#[test]
fn resolve_fails_without_any_match() {
    let mut meta = version_table();
    meta.history.remove(0);
    let r = resolve(&meta, StableVersion::new(0, 9));
    assert!(matches!(r, Err(EndpointError::UnsupportedVersion)));
}

#[test]
fn render_substitutes_and_percent_encodes() {
    let template = PathTemplate {
        segments: vec![
            Segment::Literal("download".to_owned()),
            Segment::Placeholder("media_id".to_owned()),
        ],
    };
    let fields = vec![("media_id".to_owned(), "a/b".to_owned())];
    let path = render(&template, &fields).unwrap();
    assert_eq!(path, "/download/a%2Fb");
}

#[test]
fn render_fails_on_missing_field() {
    let template = PathTemplate {
        segments: vec![Segment::Placeholder("media_id".to_owned())],
    };
    let fields: Vec<(String, String)> = Vec::new();
    let r = render(&template, &fields);
    assert!(matches!(r, Err(EndpointError::MissingPathField(n)) if n == "media_id"));
}

#[test]
fn render_fails_on_empty_field() {
    let template = PathTemplate {
        segments: vec![Segment::Placeholder("media_id".to_owned())],
    };
    let fields = vec![("media_id".to_owned(), String::new())];
    let r = render(&template, &fields);
    assert!(matches!(r, Err(EndpointError::MissingPathField(n)) if n == "media_id"));
}

#[test]
fn percent_encoding_occupies_one_segment_and_decodes_back() {
    let encoded = percent_encode("dir/file name.pdf");
    assert!(!encoded.contains('/'));
    assert_eq!(encoded, "dir%2Ffile%20name.pdf");
    let decoded = percent_decode(&encoded).unwrap();
    assert_eq!(String::from_utf8(decoded).unwrap(), "dir/file name.pdf");
}

#[test]
fn percent_encoding_handles_non_ascii() {
    let encoded = percent_encode("r\u{e9}sum\u{e9}");
    assert_eq!(encoded, "r%C3%A9sum%C3%A9");
    let decoded = percent_decode(&encoded).unwrap();
    assert_eq!(String::from_utf8(decoded).unwrap(), "r\u{e9}sum\u{e9}");
}

#[test]
fn percent_encoding_keeps_unreserved_bytes() {
    assert_eq!(percent_encode("AZaz09-._~"), "AZaz09-._~");
}

#[test]
fn percent_decode_rejects_malformed_triples() {
    assert!(percent_decode("%2").is_none());
    assert!(percent_decode("%zz").is_none());
    assert!(percent_decode("caf\u{e9}").is_none());
}

#[test]
fn decode_requires_non_optional_header() {
    let schema = vec![FieldMapping {
        name: "token".to_owned(),
        location: Location::Header("x-token".to_owned()),
        kind: ValueKind::Text,
        default: None,
        omit_if_default: false,
    }];
    let wire = WireResponse { status: 200, headers: Vec::new(), body: Vec::new() };
    let r = decode_response(&schema, &wire);
    assert!(matches!(r, Err(EndpointError::MissingHeader(n)) if n == "x-token"));
}

#[test]
fn encode_rejects_unrepresentable_header_value() {
    let meta = version_table();
    let schema = vec![FieldMapping {
        name: "note".to_owned(),
        location: Location::Header("x-note".to_owned()),
        kind: ValueKind::OptText,
        default: None,
        omit_if_default: false,
    }];
    let values = vec![FieldValue::OptText(Some("bad\u{1}value".to_owned()))];
    let r = encode_request(&meta, &schema, &values, StableVersion::new(1, 11));
    assert!(matches!(r, Err(EndpointError::HeaderEncodeError(n)) if n == "x-note"));
}

#[test]
fn disposition_round_trips_through_header_text() {
    let d = ContentDisposition {
        disposition: DispositionType::Attachment,
        filename: Some("report.pdf".to_owned()),
    };
    let text = render_disposition(&d).unwrap();
    assert_eq!(text, "attachment; filename=\"report.pdf\"");
    let parsed = parse_disposition(&text).unwrap();
    assert_eq!(parsed, d);
}

#[test]
fn unquoted_token_filename_parses() {
    let parsed = parse_disposition("attachment; filename=report.pdf").unwrap();
    assert_eq!(parsed.disposition, DispositionType::Attachment);
    assert_eq!(parsed.filename.as_deref(), Some("report.pdf"));
    let parsed = parse_disposition("inline; filename=a-b_c.txt").unwrap();
    assert_eq!(parsed.disposition, DispositionType::Inline);
    assert_eq!(parsed.filename.as_deref(), Some("a-b_c.txt"));
    // A token stops at whitespace and separators; a half-quoted form is
    // neither a quoted string nor a token.
    assert!(parse_disposition("attachment; filename=two words").is_none());
    assert!(parse_disposition("attachment; filename=\"report.pdf").is_none());
}

#[test]
fn bare_disposition_types_parse() {
    let inline = parse_disposition("inline").unwrap();
    assert_eq!(inline.disposition, DispositionType::Inline);
    assert_eq!(inline.filename, None);
    assert!(parse_disposition("inline; filename=").is_none());
    assert!(parse_disposition("form-data").is_none());
}

#[test]
fn disposition_with_unquotable_filename_is_rejected() {
    let d = ContentDisposition {
        disposition: DispositionType::Inline,
        filename: Some("a\"b".to_owned()),
    };
    assert!(render_disposition(&d).is_none());
}
