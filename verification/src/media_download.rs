//! The media-download endpoint: retrieve content from the media store
//! under a caller-chosen filename.
//!
//! `GET /_matrix/client/*/media/download/{serverName}/{mediaId}/{fileName}`,
//! rate-limited, requiring an access token, with a stable path since
//! protocol version 1.11 and an unstable fallback path.  The request
//! carries three path fields and an optional download timeout in
//! milliseconds, omitted from the query string when it equals the default;
//! the response carries the raw file bytes and four optional headers.

use vstd::prelude::*;
use crate::decode::decode_response;
use crate::decode::decode_spec;
use crate::decode::lookup_header;
use crate::decode::vals_model;
use crate::error::EndpointError;
use crate::error::ErrModel;
use crate::encode::encode_request;
use crate::encode::header_list;
use crate::encode::headers_model;
use crate::encode::body_bytes;
use crate::encode::path_pairs;
use crate::encode::query_str;
use crate::field::FieldMapping;
use crate::field::FieldValue;
use crate::field::Location;
use crate::field::ValModel;
use crate::field::ValueKind;
use crate::field::dec_str;
use crate::field::schema_wf;
use crate::field::values_match;
use crate::header::ContentDisposition;
use crate::header::DispositionModel;
use crate::header::is_header_text;
use crate::header::parse_disp;
use crate::metadata::AuthRequirement;
use crate::metadata::HttpMethod;
use crate::metadata::Metadata;
use crate::metadata::resolve_spec;
use crate::percent::pe_str;
use crate::template::PathTemplate;
use crate::template::Segment;
use crate::template::render_spec;
use crate::version::StableVersion;
use crate::version::VersionTag;
use crate::version::version_le;
use crate::wire::WireRequest;
use crate::wire::WireResponse;

verus! {

/// The default download timeout, in milliseconds.
pub const DEFAULT_DOWNLOAD_TIMEOUT_MS: u64 = 20000;

/// Request type for the media-download endpoint: the server name and
/// media ID of the content, the filename to return, and the maximum
/// duration the client is willing to wait for the content, in
/// milliseconds.
#[derive(Clone, Debug, PartialEq, Eq)]
pub struct Request {
    /// The server name from the `mxc://` URI (the authority component).
    pub server_name: String,
    /// The media ID from the `mxc://` URI (the path component).
    pub media_id: String,
    /// The filename to return in the `Content-Disposition` header.
    pub filename: String,
    /// The maximum duration to wait for the content, in milliseconds.
    pub timeout_ms: u64,
}

/// Response type for the media-download endpoint: the raw content and
/// its optional describing headers.
#[derive(Clone, Debug, PartialEq, Eq)]
pub struct Response {
    /// The content that was previously uploaded.
    pub file: Vec<u8>,
    /// The value of the `Content-Type` header, if present.
    pub content_type: Option<String>,
    /// The value of the `Content-Disposition` header, if present.
    pub content_disposition: Option<ContentDisposition>,
    /// The value of the `Cross-Origin-Resource-Policy` header, if present.
    pub cross_origin_resource_policy: Option<String>,
    /// The value of the `Cache-Control` header, if present.
    pub cache_control: Option<String>,
}

/// The segment is a literal with the given text.
pub open spec fn seg_is_lit(s: Segment, t: Seq<char>) -> bool {
    s matches Segment::Literal(l) && l@ == t
}

/// The segment is a placeholder with the given name.
pub open spec fn seg_is_ph(s: Segment, t: Seq<char>) -> bool {
    s matches Segment::Placeholder(p) && p@ == t
}

/// The endpoint's immutable metadata: GET, rate-limited, access-token
/// authentication, an unstable path and a stable path since 1.11.
pub fn metadata() -> (m: Metadata)
    ensures
        crate::metadata::history_wf(m.history@),
        m.method == HttpMethod::Get,
        m.rate_limited,
        m.authentication == AuthRequirement::AccessToken,
        m.history@.len() == 2,
        m.history@[0].0 == VersionTag::Unstable,
        m.history@[1].0 == VersionTag::Stable(StableVersion { major: 1, minor: 11 }),
        m.history@[0].1.segments@.len() == 9,
        seg_is_lit(m.history@[0].1.segments@[0], "_matrix"@),
        seg_is_lit(m.history@[0].1.segments@[1], "client"@),
        seg_is_lit(m.history@[0].1.segments@[2], "unstable"@),
        seg_is_lit(m.history@[0].1.segments@[3], "org.matrix.msc3916"@),
        seg_is_lit(m.history@[0].1.segments@[4], "media"@),
        seg_is_lit(m.history@[0].1.segments@[5], "download"@),
        seg_is_ph(m.history@[0].1.segments@[6], "server_name"@),
        seg_is_ph(m.history@[0].1.segments@[7], "media_id"@),
        seg_is_ph(m.history@[0].1.segments@[8], "filename"@),
        m.history@[1].1.segments@.len() == 8,
        seg_is_lit(m.history@[1].1.segments@[0], "_matrix"@),
        seg_is_lit(m.history@[1].1.segments@[1], "client"@),
        seg_is_lit(m.history@[1].1.segments@[2], "v1"@),
        seg_is_lit(m.history@[1].1.segments@[3], "media"@),
        seg_is_lit(m.history@[1].1.segments@[4], "download"@),
        seg_is_ph(m.history@[1].1.segments@[5], "server_name"@),
        seg_is_ph(m.history@[1].1.segments@[6], "media_id"@),
        seg_is_ph(m.history@[1].1.segments@[7], "filename"@),
{
    let mut unstable_segs: Vec<Segment> = Vec::new();
    unstable_segs.push(Segment::Literal("_matrix".to_owned()));
    unstable_segs.push(Segment::Literal("client".to_owned()));
    unstable_segs.push(Segment::Literal("unstable".to_owned()));
    unstable_segs.push(Segment::Literal("org.matrix.msc3916".to_owned()));
    unstable_segs.push(Segment::Literal("media".to_owned()));
    unstable_segs.push(Segment::Literal("download".to_owned()));
    unstable_segs.push(Segment::Placeholder("server_name".to_owned()));
    unstable_segs.push(Segment::Placeholder("media_id".to_owned()));
    unstable_segs.push(Segment::Placeholder("filename".to_owned()));
    let mut stable_segs: Vec<Segment> = Vec::new();
    stable_segs.push(Segment::Literal("_matrix".to_owned()));
    stable_segs.push(Segment::Literal("client".to_owned()));
    stable_segs.push(Segment::Literal("v1".to_owned()));
    stable_segs.push(Segment::Literal("media".to_owned()));
    stable_segs.push(Segment::Literal("download".to_owned()));
    stable_segs.push(Segment::Placeholder("server_name".to_owned()));
    stable_segs.push(Segment::Placeholder("media_id".to_owned()));
    stable_segs.push(Segment::Placeholder("filename".to_owned()));
    let mut history: Vec<(VersionTag, PathTemplate)> = Vec::new();
    history.push((VersionTag::Unstable, PathTemplate { segments: unstable_segs }));
    history.push(
        (
            VersionTag::Stable(StableVersion { major: 1, minor: 11 }),
            PathTemplate { segments: stable_segs },
        ),
    );
    Metadata {
        method: HttpMethod::Get,
        rate_limited: true,
        authentication: AuthRequirement::AccessToken,
        history,
    }
}

/// The path prefix the resolver picks for a negotiated version: the
/// stable path for 1.11 and later, the unstable fallback below.
pub open spec fn media_path_prefix(version: StableVersion) -> Seq<char> {
    if version_le(StableVersion { major: 1, minor: 11 }, version) {
        "/_matrix/client/v1/media/download"@
    } else {
        "/_matrix/client/unstable/org.matrix.msc3916/media/download"@
    }
}

/// The request's schema: three path fields and the timeout query field,
/// omitted when it equals its default.
fn request_schema() -> (ms: Vec<FieldMapping>)
    ensures
        ms@.len() == 4,
        ms@[0].name@ == "server_name"@ && ms@[0].location is Path && ms@[0].kind is Text && ms@[0].default is None && !ms@[0].omit_if_default,
        ms@[1].name@ == "media_id"@ && ms@[1].location is Path && ms@[1].kind is Text && ms@[1].default is None && !ms@[1].omit_if_default,
        ms@[2].name@ == "filename"@ && ms@[2].location is Path && ms@[2].kind is Text && ms@[2].default is None && !ms@[2].omit_if_default,
        ms@[3].name@ == "timeout_ms"@ && ms@[3].location is Query && ms@[3].kind is Millis && ms@[3].omit_if_default,
        ms@[3].default matches Some(d) && d@ == crate::field::ValModel::Millis(DEFAULT_DOWNLOAD_TIMEOUT_MS),
        schema_wf(ms@),
{
    let mut ms: Vec<FieldMapping> = Vec::new();
    ms.push(
        FieldMapping {
            name: "server_name".to_owned(),
            location: Location::Path,
            kind: ValueKind::Text,
            default: None,
            omit_if_default: false,
        },
    );
    ms.push(
        FieldMapping {
            name: "media_id".to_owned(),
            location: Location::Path,
            kind: ValueKind::Text,
            default: None,
            omit_if_default: false,
        },
    );
    ms.push(
        FieldMapping {
            name: "filename".to_owned(),
            location: Location::Path,
            kind: ValueKind::Text,
            default: None,
            omit_if_default: false,
        },
    );
    ms.push(
        FieldMapping {
            name: "timeout_ms".to_owned(),
            location: Location::Query,
            kind: ValueKind::Millis,
            default: Some(FieldValue::Millis(DEFAULT_DOWNLOAD_TIMEOUT_MS)),
            omit_if_default: true,
        },
    );
    ms
}

/// Rendering the three trailing placeholder segments after an already
/// rendered literal prefix: the percent-encoded fields in order, or
/// `MissingPathField` naming the first empty one.
proof fn lemma_render_media_tail(
    segs: Seq<Segment>,
    fields: Seq<(String, String)>,
    k: int,
    prefix: Seq<char>,
    sv: Seq<char>,
    mv: Seq<char>,
    fv: Seq<char>,
)
    requires
        0 <= k,
        segs.len() == k + 3,
        render_spec(segs.take(k), fields) == Ok::<Seq<char>, ErrModel>(prefix),
        seg_is_ph(segs[k], "server_name"@),
        seg_is_ph(segs[k + 1], "media_id"@),
        seg_is_ph(segs[k + 2], "filename"@),
        crate::template::lookup_pair(fields, "server_name"@) == Some(sv),
        crate::template::lookup_pair(fields, "media_id"@) == Some(mv),
        crate::template::lookup_pair(fields, "filename"@) == Some(fv),
    ensures
        sv.len() > 0 && mv.len() > 0 && fv.len() > 0 ==> render_spec(segs, fields) == Ok::<
            Seq<char>,
            ErrModel,
        >(prefix + seq!['/'] + pe_str(sv) + seq!['/'] + pe_str(mv) + seq!['/'] + pe_str(fv)),
        sv.len() == 0 ==> render_spec(segs, fields) == Err::<Seq<char>, ErrModel>(
            ErrModel::MissingPathField("server_name"@),
        ),
        sv.len() > 0 && mv.len() == 0 ==> render_spec(segs, fields) == Err::<Seq<char>, ErrModel>(
            ErrModel::MissingPathField("media_id"@),
        ),
        sv.len() > 0 && mv.len() > 0 && fv.len() == 0 ==> render_spec(segs, fields) == Err::<
            Seq<char>,
            ErrModel,
        >(ErrModel::MissingPathField("filename"@)),
{
    assert(segs.take(k + 1).drop_last() =~= segs.take(k));
    assert(segs.take(k + 1).last() == segs[k]);
    assert(segs.take(k + 2).drop_last() =~= segs.take(k + 1));
    assert(segs.take(k + 2).last() == segs[k + 1]);
    assert(segs.take(k + 3).drop_last() =~= segs.take(k + 2));
    assert(segs.take(k + 3).last() == segs[k + 2]);
    assert(segs.take(k + 3) =~= segs);
    if sv.len() == 0 {
        assert(render_spec(segs.take(k + 1), fields) == Err::<Seq<char>, ErrModel>(
            ErrModel::MissingPathField("server_name"@),
        ));
        crate::template::lemma_render_err(segs, fields, k + 1);
    } else {
        assert(render_spec(segs.take(k + 1), fields) == Ok::<Seq<char>, ErrModel>(
            prefix + seq!['/'] + pe_str(sv),
        ));
        if mv.len() == 0 {
            assert(render_spec(segs.take(k + 2), fields) == Err::<Seq<char>, ErrModel>(
                ErrModel::MissingPathField("media_id"@),
            ));
            crate::template::lemma_render_err(segs, fields, k + 2);
        } else {
            assert(render_spec(segs.take(k + 2), fields) == Ok::<Seq<char>, ErrModel>(
                prefix + seq!['/'] + pe_str(sv) + seq!['/'] + pe_str(mv),
            ));
            if fv.len() == 0 {
                assert(render_spec(segs.take(k + 3), fields) == Err::<Seq<char>, ErrModel>(
                    ErrModel::MissingPathField("filename"@),
                ));
                crate::template::lemma_render_err(segs, fields, k + 3);
            } else {
                assert(render_spec(segs.take(k + 3), fields) == Ok::<Seq<char>, ErrModel>(
                    prefix + seq!['/'] + pe_str(sv) + seq!['/'] + pe_str(mv) + seq!['/'] + pe_str(
                        fv,
                    ),
                ));
            }
        }
    }
}

/// What the engine computes on this endpoint's schema: the resolver picks
/// the stable template for 1.11 and later and the unstable fallback
/// below; the path renders from the three path fields; the query string
/// carries the timeout unless it equals the default; there are no headers
/// and no body.
#[verifier::rlimit(100)]
proof fn lemma_request_encoding(
    meta: Metadata,
    ms: Seq<FieldMapping>,
    vs: Seq<FieldValue>,
    version: StableVersion,
    req: Request,
)
    requires
        meta.history@.len() == 2,
        meta.history@[0].0 == VersionTag::Unstable,
        meta.history@[1].0 == VersionTag::Stable(StableVersion { major: 1, minor: 11 }),
        meta.history@[0].1.segments@.len() == 9,
        seg_is_lit(meta.history@[0].1.segments@[0], "_matrix"@),
        seg_is_lit(meta.history@[0].1.segments@[1], "client"@),
        seg_is_lit(meta.history@[0].1.segments@[2], "unstable"@),
        seg_is_lit(meta.history@[0].1.segments@[3], "org.matrix.msc3916"@),
        seg_is_lit(meta.history@[0].1.segments@[4], "media"@),
        seg_is_lit(meta.history@[0].1.segments@[5], "download"@),
        seg_is_ph(meta.history@[0].1.segments@[6], "server_name"@),
        seg_is_ph(meta.history@[0].1.segments@[7], "media_id"@),
        seg_is_ph(meta.history@[0].1.segments@[8], "filename"@),
        meta.history@[1].1.segments@.len() == 8,
        seg_is_lit(meta.history@[1].1.segments@[0], "_matrix"@),
        seg_is_lit(meta.history@[1].1.segments@[1], "client"@),
        seg_is_lit(meta.history@[1].1.segments@[2], "v1"@),
        seg_is_lit(meta.history@[1].1.segments@[3], "media"@),
        seg_is_lit(meta.history@[1].1.segments@[4], "download"@),
        seg_is_ph(meta.history@[1].1.segments@[5], "server_name"@),
        seg_is_ph(meta.history@[1].1.segments@[6], "media_id"@),
        seg_is_ph(meta.history@[1].1.segments@[7], "filename"@),
        ms.len() == 4,
        ms[0].name@ == "server_name"@ && ms[0].location is Path && ms[0].kind is Text,
        ms[1].name@ == "media_id"@ && ms[1].location is Path && ms[1].kind is Text,
        ms[2].name@ == "filename"@ && ms[2].location is Path && ms[2].kind is Text,
        ms[3].name@ == "timeout_ms"@ && ms[3].location is Query && ms[3].kind is Millis
            && ms[3].omit_if_default,
        ms[3].default matches Some(d) && d@ == crate::field::ValModel::Millis(
            DEFAULT_DOWNLOAD_TIMEOUT_MS,
        ),
        vs.len() == 4,
        vs[0] matches FieldValue::Text(t) && t@ == req.server_name@,
        vs[1] matches FieldValue::Text(t) && t@ == req.media_id@,
        vs[2] matches FieldValue::Text(t) && t@ == req.filename@,
        vs[3] == FieldValue::Millis(req.timeout_ms),
    ensures
        values_match(ms, vs),
        resolve_spec(meta.history@, version) == Ok::<int, ErrModel>(
            if version_le(StableVersion { major: 1, minor: 11 }, version) {
                1int
            } else {
                0int
            },
        ),
        header_list(ms, vs) == Ok::<Seq<(Seq<char>, Seq<char>)>, ErrModel>(Seq::empty()),
        body_bytes(ms, vs) == Seq::<u8>::empty(),
        query_str(ms, vs) == (if req.timeout_ms == DEFAULT_DOWNLOAD_TIMEOUT_MS {
            Seq::<char>::empty()
        } else {
            "timeout_ms"@ + seq!['='] + dec_str(req.timeout_ms as int)
        }),
        ({
            let idx: int = if version_le(StableVersion { major: 1, minor: 11 }, version) {
                1
            } else {
                0
            };
            let segs = meta.history@[idx].1.segments@;
            &&& (req.server_name@.len() > 0 && req.media_id@.len() > 0 && req.filename@.len() > 0)
                ==> render_spec(segs, path_pairs(ms, vs)) == Ok::<Seq<char>, ErrModel>(
                media_path_prefix(version) + seq!['/'] + pe_str(req.server_name@) + seq!['/']
                    + pe_str(req.media_id@) + seq!['/'] + pe_str(req.filename@),
            )
            &&& req.server_name@.len() == 0 ==> render_spec(segs, path_pairs(ms, vs)) == Err::<
                Seq<char>,
                ErrModel,
            >(ErrModel::MissingPathField("server_name"@))
            &&& (req.server_name@.len() > 0 && req.media_id@.len() == 0) ==> render_spec(
                segs,
                path_pairs(ms, vs),
            ) == Err::<Seq<char>, ErrModel>(ErrModel::MissingPathField("media_id"@))
            &&& (req.server_name@.len() > 0 && req.media_id@.len() > 0 && req.filename@.len() == 0)
                ==> render_spec(segs, path_pairs(ms, vs)) == Err::<Seq<char>, ErrModel>(
                ErrModel::MissingPathField("filename"@),
            )
        }),
{
    reveal_strlit("server_name");
    reveal_strlit("media_id");
    reveal_strlit("filename");
    reveal_strlit("timeout_ms");
    reveal_strlit("_matrix");
    reveal_strlit("client");
    reveal_strlit("unstable");
    reveal_strlit("org.matrix.msc3916");
    reveal_strlit("media");
    reveal_strlit("download");
    reveal_strlit("v1");
    reveal_strlit("/_matrix/client/v1/media/download");
    reveal_strlit("/_matrix/client/unstable/org.matrix.msc3916/media/download");

    // The schema's values fit their declared kinds.
    assert(values_match(ms, vs)) by {
        assert forall|i: int| 0 <= i < ms.len() implies crate::field::val_kind(#[trigger] vs[i])
            == ms[i].kind by {
            if i == 0 {
            } else if i == 1 {
            } else if i == 2 {
            } else {
                assert(i == 3);
            }
        }
    }

    // Version resolution over the two-entry table.
    let h = meta.history@;
    assert(h.drop_last() =~= h.take(1));
    assert(h.take(1).drop_last() =~= h.take(0));
    assert(h.take(0) =~= Seq::<(VersionTag, PathTemplate)>::empty());
    assert(h.take(1).last() == h[0]);
    assert(h.last() == h[1]);
    assert(crate::metadata::best_stable_idx(h.take(0), version) is None);
    assert(crate::metadata::best_stable_idx(h.take(1), version) is None);
    assert(crate::metadata::first_unstable_idx(h.take(0)) is None);
    assert(crate::metadata::first_unstable_idx(h.take(1)) == Some(0int));
    if version_le(StableVersion { major: 1, minor: 11 }, version) {
        assert(crate::metadata::best_stable_idx(h, version) == Some(1int));
    } else {
        assert(crate::metadata::best_stable_idx(h, version) is None);
        assert(crate::metadata::first_unstable_idx(h) == Some(0int));
    }

    // Unfolding the four-element schema.
    assert(ms.drop_last() =~= ms.take(3));
    assert(vs.drop_last() =~= vs.take(3));
    assert(ms.take(3).drop_last() =~= ms.take(2));
    assert(vs.take(3).drop_last() =~= vs.take(2));
    assert(ms.take(2).drop_last() =~= ms.take(1));
    assert(vs.take(2).drop_last() =~= vs.take(1));
    assert(ms.take(1).drop_last() =~= ms.take(0));
    assert(vs.take(1).drop_last() =~= vs.take(0));
    assert(ms.take(0) =~= Seq::<FieldMapping>::empty());
    assert(vs.take(0) =~= Seq::<FieldValue>::empty());
    assert(ms.take(1).last() == ms[0] && vs.take(1).last() == vs[0]);
    assert(ms.take(2).last() == ms[1] && vs.take(2).last() == vs[1]);
    assert(ms.take(3).last() == ms[2] && vs.take(3).last() == vs[2]);
    assert(ms.last() == ms[3] && vs.last() == vs[3]);

    let t0 = vs[0]->Text_0;
    let t1 = vs[1]->Text_0;
    let t2 = vs[2]->Text_0;

    // Path pairs: the three path fields in order.
    assert(path_pairs(ms.take(0), vs.take(0)) =~= Seq::<(String, String)>::empty());
    assert(path_pairs(ms.take(1), vs.take(1)) =~= seq![(ms[0].name, t0)]);
    assert(path_pairs(ms.take(2), vs.take(2)) =~= seq![(ms[0].name, t0), (ms[1].name, t1)]);
    assert(path_pairs(ms.take(3), vs.take(3)) =~= seq![
        (ms[0].name, t0),
        (ms[1].name, t1),
        (ms[2].name, t2),
    ]);
    let pairs = path_pairs(ms, vs);
    assert(pairs =~= seq![(ms[0].name, t0), (ms[1].name, t1), (ms[2].name, t2)]);

    // Looking the placeholder names up in the pairs.
    assert("server_name"@.len() == 11 && "media_id"@.len() == 8 && "filename"@.len() == 8);
    assert("media_id"@ != "server_name"@);
    assert("filename"@ != "server_name"@);
    assert("filename"@[0] == 'f' && "media_id"@[0] == 'm');
    assert("filename"@ != "media_id"@);
    assert(pairs.drop_first() =~= seq![(ms[1].name, t1), (ms[2].name, t2)]);
    assert(pairs.drop_first().drop_first() =~= seq![(ms[2].name, t2)]);
    assert(pairs.drop_first().drop_first().drop_first() =~= Seq::<(String, String)>::empty());
    assert(crate::template::lookup_pair(pairs, "server_name"@) == Some(t0@));
    assert(crate::template::lookup_pair(pairs.drop_first(), "media_id"@) == Some(t1@));
    assert(crate::template::lookup_pair(pairs, "media_id"@) == Some(t1@));
    assert(crate::template::lookup_pair(pairs.drop_first().drop_first(), "filename"@) == Some(
        t2@,
    ));
    assert(crate::template::lookup_pair(pairs.drop_first(), "filename"@) == Some(t2@));
    assert(crate::template::lookup_pair(pairs, "filename"@) == Some(t2@));

    // No header fields, no raw-body field.
    assert(header_list(ms.take(0), vs.take(0)) == Ok::<Seq<(Seq<char>, Seq<char>)>, ErrModel>(
        Seq::empty(),
    ));
    assert(header_list(ms.take(1), vs.take(1)) == Ok::<Seq<(Seq<char>, Seq<char>)>, ErrModel>(
        Seq::empty(),
    ));
    assert(header_list(ms.take(2), vs.take(2)) == Ok::<Seq<(Seq<char>, Seq<char>)>, ErrModel>(
        Seq::empty(),
    ));
    assert(header_list(ms.take(3), vs.take(3)) == Ok::<Seq<(Seq<char>, Seq<char>)>, ErrModel>(
        Seq::empty(),
    ));
    assert(header_list(ms, vs) == Ok::<Seq<(Seq<char>, Seq<char>)>, ErrModel>(Seq::empty()));
    assert(body_bytes(ms.take(0), vs.take(0)) =~= Seq::<u8>::empty());
    assert(body_bytes(ms.take(1), vs.take(1)) =~= Seq::<u8>::empty());
    assert(body_bytes(ms.take(2), vs.take(2)) =~= Seq::<u8>::empty());
    assert(body_bytes(ms.take(3), vs.take(3)) =~= Seq::<u8>::empty());
    assert(body_bytes(ms, vs) =~= Seq::<u8>::empty());

    // The query string: only the timeout field, omitted at its default.
    assert(query_str(ms.take(0), vs.take(0)) =~= Seq::<char>::empty());
    assert(query_str(ms.take(1), vs.take(1)) =~= Seq::<char>::empty());
    assert(query_str(ms.take(2), vs.take(2)) =~= Seq::<char>::empty());
    assert(query_str(ms.take(3), vs.take(3)) =~= Seq::<char>::empty());
    assert(crate::encode::omitted(ms[3], vs[3]) <==> req.timeout_ms == DEFAULT_DOWNLOAD_TIMEOUT_MS);
    if req.timeout_ms == DEFAULT_DOWNLOAD_TIMEOUT_MS {
        assert(query_str(ms, vs) =~= Seq::<char>::empty());
    } else {
        assert(query_str(ms, vs) =~= "timeout_ms"@ + seq!['='] + dec_str(req.timeout_ms as int));
    }

    // Rendering the chosen template.
    if version_le(StableVersion { major: 1, minor: 11 }, version) {
        let segs = meta.history@[1].1.segments@;
        assert(segs.take(1).drop_last() =~= segs.take(0));
        assert(segs.take(2).drop_last() =~= segs.take(1));
        assert(segs.take(3).drop_last() =~= segs.take(2));
        assert(segs.take(4).drop_last() =~= segs.take(3));
        assert(segs.take(5).drop_last() =~= segs.take(4));
        assert(segs.take(0) =~= Seq::<Segment>::empty());
        assert(segs.take(1).last() == segs[0]);
        assert(segs.take(2).last() == segs[1]);
        assert(segs.take(3).last() == segs[2]);
        assert(segs.take(4).last() == segs[3]);
        assert(segs.take(5).last() == segs[4]);
        let p1 = seq!['/'] + "_matrix"@;
        let p2 = p1 + seq!['/'] + "client"@;
        let p3 = p2 + seq!['/'] + "v1"@;
        let p4 = p3 + seq!['/'] + "media"@;
        let p5 = p4 + seq!['/'] + "download"@;
        assert(render_spec(segs.take(0), pairs) == Ok::<Seq<char>, ErrModel>(Seq::empty()));
        assert(render_spec(segs.take(1), pairs) == Ok::<Seq<char>, ErrModel>(p1)) by {
            assert(Seq::<char>::empty() + seq!['/'] + "_matrix"@ =~= p1);
        }
        assert(render_spec(segs.take(2), pairs) == Ok::<Seq<char>, ErrModel>(p2));
        assert(render_spec(segs.take(3), pairs) == Ok::<Seq<char>, ErrModel>(p3));
        assert(render_spec(segs.take(4), pairs) == Ok::<Seq<char>, ErrModel>(p4));
        assert(render_spec(segs.take(5), pairs) == Ok::<Seq<char>, ErrModel>(p5));
        assert(p5 =~= "/_matrix/client/v1/media/download"@);
        assert(media_path_prefix(version) == p5);
        lemma_render_media_tail(segs, pairs, 5, p5, t0@, t1@, t2@);
    } else {
        let segs = meta.history@[0].1.segments@;
        assert(segs.take(1).drop_last() =~= segs.take(0));
        assert(segs.take(2).drop_last() =~= segs.take(1));
        assert(segs.take(3).drop_last() =~= segs.take(2));
        assert(segs.take(4).drop_last() =~= segs.take(3));
        assert(segs.take(5).drop_last() =~= segs.take(4));
        assert(segs.take(6).drop_last() =~= segs.take(5));
        assert(segs.take(0) =~= Seq::<Segment>::empty());
        assert(segs.take(1).last() == segs[0]);
        assert(segs.take(2).last() == segs[1]);
        assert(segs.take(3).last() == segs[2]);
        assert(segs.take(4).last() == segs[3]);
        assert(segs.take(5).last() == segs[4]);
        assert(segs.take(6).last() == segs[5]);
        let p1 = seq!['/'] + "_matrix"@;
        let p2 = p1 + seq!['/'] + "client"@;
        let p3 = p2 + seq!['/'] + "unstable"@;
        let p4 = p3 + seq!['/'] + "org.matrix.msc3916"@;
        let p5 = p4 + seq!['/'] + "media"@;
        let p6 = p5 + seq!['/'] + "download"@;
        assert(render_spec(segs.take(0), pairs) == Ok::<Seq<char>, ErrModel>(Seq::empty()));
        assert(render_spec(segs.take(1), pairs) == Ok::<Seq<char>, ErrModel>(p1)) by {
            assert(Seq::<char>::empty() + seq!['/'] + "_matrix"@ =~= p1);
        }
        assert(render_spec(segs.take(2), pairs) == Ok::<Seq<char>, ErrModel>(p2));
        assert(render_spec(segs.take(3), pairs) == Ok::<Seq<char>, ErrModel>(p3));
        assert(render_spec(segs.take(4), pairs) == Ok::<Seq<char>, ErrModel>(p4));
        assert(render_spec(segs.take(5), pairs) == Ok::<Seq<char>, ErrModel>(p5));
        assert(render_spec(segs.take(6), pairs) == Ok::<Seq<char>, ErrModel>(p6));
        assert(p6 =~= "/_matrix/client/unstable/org.matrix.msc3916/media/download"@);
        assert(media_path_prefix(version) == p6);
        lemma_render_media_tail(segs, pairs, 6, p6, t0@, t1@, t2@);
    }
}

/// The character may stand in a media ID: ASCII letter, digit, `-`, `_`.
pub open spec fn is_media_id_char(c: char) -> bool {
    ('0' <= c && c <= '9') || ('a' <= c && c <= 'z') || ('A' <= c && c <= 'Z') || c == '-' || c
        == '_'
}

/// The (server name, media ID) decomposition of an `mxc://` URI, or
/// `None` when the text is not a well-formed MXC identifier.  The exact
/// well-formedness rules (the server-name grammar above all) belong to
/// the identifier-parsing collaborator; the decomposition depends on the
/// characters of the URI alone.
pub uninterp spec fn mxc_parse(uri: Seq<char>) -> Option<(Seq<char>, Seq<char>)>;

/// The identifier-parsing collaborator can store the URI's split
/// position in a byte: either no `/` occurs at or after the six scheme
/// characters, or the first one sits at character position 255 or
/// earlier.
pub open spec fn splittable(s: Seq<char>) -> bool {
    (exists|i: int| 6 <= i <= 255 && i < s.len() && #[trigger] s[i] == '/') || (forall|i: int|
        6 <= i < s.len() ==> #[trigger] s[i] != '/')
}

/// Relies on `ruma_common::MxcUri::parts`: a well-formed `mxc://` URI
/// splits at the first slash after the scheme into a non-empty validated
/// server name (which therefore contains no slash) and a media ID made of
/// ASCII letters, digits, `-` and `_`; both are returned as slices of the
/// URI.  The call decides well-formedness from the URI's characters
/// alone, so its outcome is [`mxc_parse`] of the URI.  The callee stores
/// the position of the split slash in a byte, and it only reaches that
/// store once both validations have passed, which forces the URI to
/// ASCII; `splittable` therefore keeps the stored position exact on
/// every admitted input.
#[verifier::external_body]
fn mxc_parts(uri: &str) -> (r: Option<(String, String)>)
    requires
        splittable(uri@),
    ensures
        r is Some <==> mxc_parse(uri@) is Some,
        r matches Some((s, m)) ==> {
            &&& mxc_parse(uri@) == Some((s@, m@))
            &&& uri@ == "mxc://"@ + s@ + seq!['/'] + m@
            &&& s@.len() > 0
            &&& (forall|i: int| 0 <= i < s@.len() ==> s@[i] != '/')
            &&& (forall|i: int| 0 <= i < m@.len() ==> is_media_id_char(#[trigger] m@[i]))
        },
{
    let mxc: &ruma_common::MxcUri = uri.into();
    match mxc.parts() {
        Ok((server, media)) => Some((server.as_str().to_owned(), media.to_owned())),
        Err(_) => None,
    }
}

/// Finds the first `/` at or after the six scheme characters.
fn first_slash_at(cs: &Vec<char>) -> (r: Option<usize>)
    ensures
        match r {
            Some(i) => 6 <= i < cs@.len() && cs@[i as int] == '/' && (forall|j: int|
                6 <= j < i ==> cs@[j] != '/'),
            None => forall|j: int| 6 <= j < cs@.len() ==> cs@[j] != '/',
        },
{
    let mut i: usize = 6;
    while i < cs.len()
        invariant
            6 <= i,
            forall|j: int| 6 <= j < i ==> cs@[j] != '/',
        decreases cs@.len() - i,
    {
        if cs[i] == '/' {
            return Some(i);
        }
        i = i + 1;
    }
    None
}

impl Request {
    /// Creates a new request from an `mxc://` URI and a filename,
    /// deriving the server name and media ID through the
    /// identifier-parsing collaborator.  Succeeds exactly when the URI
    /// decomposes as an MXC identifier; fails with
    /// `IdentifierParseError` otherwise, and also for a URI whose first
    /// `/` after the scheme lies beyond character position 255, where
    /// the collaborator's byte-sized split position gives out.
    pub fn from_uri(uri: &str, filename: String) -> (r: Result<Request, EndpointError>)
        ensures
            r is Ok <==> (splittable(uri@) && mxc_parse(uri@) is Some),
            r matches Ok(req) ==> {
                &&& mxc_parse(uri@) == Some((req.server_name@, req.media_id@))
                &&& uri@ == "mxc://"@ + req.server_name@ + seq!['/'] + req.media_id@
                &&& req.server_name@.len() > 0
                &&& (forall|i: int|
                    0 <= i < req.media_id@.len() ==> is_media_id_char(#[trigger] req.media_id@[i]))
                &&& req.filename@ == filename@
                &&& req.timeout_ms == DEFAULT_DOWNLOAD_TIMEOUT_MS
            },
            r matches Err(e) ==> e == EndpointError::IdentifierParseError,
    {
        let cs = crate::chars::str_chars(uri);
        match first_slash_at(&cs) {
            Some(i) => {
                if i > 255 {
                    proof {
                        assert(!splittable(uri@)) by {
                            assert(uri@[i as int] == '/');
                        }
                    }
                    return Err(EndpointError::IdentifierParseError);
                }
                proof {
                    assert(splittable(uri@)) by {
                        assert(6 <= i <= 255 && i < uri@.len() && uri@[i as int] == '/');
                    }
                }
            },
            None => {
                proof {
                    assert(splittable(uri@));
                }
            },
        }
        match mxc_parts(uri) {
            Some((server_name, media_id)) => Ok(Request::new(media_id, server_name, filename)),
            None => Err(EndpointError::IdentifierParseError),
        }
    }

    /// Creates a new request with the given media ID, server name and
    /// filename, and the default download timeout.
    pub fn new(media_id: String, server_name: String, filename: String) -> (r: Self)
        ensures
            r.media_id@ == media_id@,
            r.server_name@ == server_name@,
            r.filename@ == filename@,
            r.timeout_ms == DEFAULT_DOWNLOAD_TIMEOUT_MS,
    {
        Request { media_id, server_name, filename, timeout_ms: DEFAULT_DOWNLOAD_TIMEOUT_MS }
    }

    /// Encodes this request for the negotiated protocol version: the
    /// resolved path with percent-encoded path fields, the timeout query
    /// parameter unless it equals the default, no headers and an empty
    /// body.  Fails with `MissingPathField` naming the first empty path
    /// field.
    pub fn encode(&self, version: StableVersion) -> (r: Result<WireRequest, EndpointError>)
        ensures
            r is Ok <==> (self.server_name@.len() > 0 && self.media_id@.len() > 0
                && self.filename@.len() > 0),
            r matches Ok(w) ==> {
                &&& w.method == HttpMethod::Get
                &&& w.path@ == media_path_prefix(version) + seq!['/'] + pe_str(self.server_name@)
                    + seq!['/'] + pe_str(self.media_id@) + seq!['/'] + pe_str(self.filename@)
                &&& w.query@ == (if self.timeout_ms == DEFAULT_DOWNLOAD_TIMEOUT_MS {
                    Seq::<char>::empty()
                } else {
                    "timeout_ms"@ + seq!['='] + dec_str(self.timeout_ms as int)
                })
                &&& w.headers@.len() == 0
                &&& w.body@.len() == 0
            },
            r matches Err(e) ==> e@ == ErrModel::MissingPathField(
                if self.server_name@.len() == 0 {
                    "server_name"@
                } else if self.media_id@.len() == 0 {
                    "media_id"@
                } else {
                    "filename"@
                },
            ),
    {
        let meta = metadata();
        let schema = request_schema();
        let mut values: Vec<FieldValue> = Vec::new();
        values.push(FieldValue::Text(self.server_name.clone()));
        values.push(FieldValue::Text(self.media_id.clone()));
        values.push(FieldValue::Text(self.filename.clone()));
        values.push(FieldValue::Millis(self.timeout_ms));
        proof {
            lemma_request_encoding(meta, schema@, values@, version, *self);
        }
        let r = encode_request(&meta, &schema, &values, version);
        proof {
            match &r {
                Ok(w) => {
                    assert(headers_model(w.headers@).len() == w.headers@.len());
                },
                Err(_) => {},
            }
        }
        r
    }
}

/// The response's schema: the raw file body and four optional headers.
fn response_fields() -> (ms: Vec<FieldMapping>)
    ensures
        ms@.len() == 5,
        ms@[0].name@ == "file"@ && ms@[0].location is RawBody && ms@[0].kind is Bytes,
        ms@[1].name@ == "content_type"@ && (ms@[1].location matches Location::Header(h) && h@
            == "content-type"@) && ms@[1].kind is OptText,
        ms@[2].name@ == "content_disposition"@ && (ms@[2].location matches Location::Header(h)
            && h@ == "content-disposition"@) && ms@[2].kind is OptDisposition,
        ms@[3].name@ == "cross_origin_resource_policy"@ && (ms@[3].location
            matches Location::Header(h) && h@ == "cross-origin-resource-policy"@) && ms@[3].kind
            is OptText,
        ms@[4].name@ == "cache_control"@ && (ms@[4].location matches Location::Header(h) && h@
            == "cache-control"@) && ms@[4].kind is OptText,
        schema_wf(ms@),
        crate::decode::response_schema(ms@),
{
    let mut ms: Vec<FieldMapping> = Vec::new();
    ms.push(
        FieldMapping {
            name: "file".to_owned(),
            location: Location::RawBody,
            kind: ValueKind::Bytes,
            default: None,
            omit_if_default: false,
        },
    );
    ms.push(
        FieldMapping {
            name: "content_type".to_owned(),
            location: Location::Header("content-type".to_owned()),
            kind: ValueKind::OptText,
            default: None,
            omit_if_default: false,
        },
    );
    ms.push(
        FieldMapping {
            name: "content_disposition".to_owned(),
            location: Location::Header("content-disposition".to_owned()),
            kind: ValueKind::OptDisposition,
            default: None,
            omit_if_default: false,
        },
    );
    ms.push(
        FieldMapping {
            name: "cross_origin_resource_policy".to_owned(),
            location: Location::Header("cross-origin-resource-policy".to_owned()),
            kind: ValueKind::OptText,
            default: None,
            omit_if_default: false,
        },
    );
    ms.push(
        FieldMapping {
            name: "cache_control".to_owned(),
            location: Location::Header("cache-control".to_owned()),
            kind: ValueKind::OptText,
            default: None,
            omit_if_default: false,
        },
    );
    proof {
        reveal_strlit("content-type");
        reveal_strlit("content-disposition");
        reveal_strlit("cross-origin-resource-policy");
        reveal_strlit("cache-control");
        assert("content-type"@.len() == 12 && "content-disposition"@.len() == 19
            && "cross-origin-resource-policy"@.len() == 28 && "cache-control"@.len() == 13);
        assert(schema_wf(ms@));
    }
    ms
}

/// The outcome of reading an optional plain-text header: `None` when the
/// value is absent or valid, the parse error otherwise.
pub open spec fn text_header_err(
    hm: Seq<(Seq<char>, Seq<char>)>,
    name: Seq<char>,
) -> Option<ErrModel> {
    match lookup_header(hm, name) {
        None => None,
        Some(v) => if is_header_text(v) {
            None
        } else {
            Some(ErrModel::HeaderParseError(name, v))
        },
    }
}

/// The outcome of reading the optional `Content-Disposition` header.
pub open spec fn disp_header_err(
    hm: Seq<(Seq<char>, Seq<char>)>,
    name: Seq<char>,
) -> Option<ErrModel> {
    match lookup_header(hm, name) {
        None => None,
        Some(v) => if parse_disp(v) is Some {
            None
        } else {
            Some(ErrModel::HeaderParseError(name, v))
        },
    }
}

/// The first error of decoding this endpoint's response headers, in
/// field order.
pub open spec fn media_decode_err(hm: Seq<(Seq<char>, Seq<char>)>) -> Option<ErrModel> {
    if text_header_err(hm, "content-type"@) is Some {
        text_header_err(hm, "content-type"@)
    } else if disp_header_err(hm, "content-disposition"@) is Some {
        disp_header_err(hm, "content-disposition"@)
    } else if text_header_err(hm, "cross-origin-resource-policy"@) is Some {
        text_header_err(hm, "cross-origin-resource-policy"@)
    } else {
        text_header_err(hm, "cache-control"@)
    }
}

/// The parsed `Content-Disposition` of an optionally present header text.
pub open spec fn disp_of(o: Option<Seq<char>>) -> Option<DispositionModel> {
    match o {
        None => None,
        Some(v) => parse_disp(v),
    }
}

/// What the engine computes on this endpoint's response schema: the body
/// is captured verbatim, each optional header decodes to its absent or
/// parsed state, and the first malformed header fails the decode.
#[verifier::rlimit(100)]
proof fn lemma_response_decoding(
    ms: Seq<FieldMapping>,
    hm: Seq<(Seq<char>, Seq<char>)>,
    body: Seq<u8>,
)
    requires
        ms.len() == 5,
        ms[0].location is RawBody && ms[0].kind is Bytes,
        ms[1].location matches Location::Header(h) && h@ == "content-type"@ && ms[1].kind
            is OptText,
        ms[2].location matches Location::Header(h) && h@ == "content-disposition"@ && ms[2].kind
            is OptDisposition,
        ms[3].location matches Location::Header(h) && h@ == "cross-origin-resource-policy"@
            && ms[3].kind is OptText,
        ms[4].location matches Location::Header(h) && h@ == "cache-control"@ && ms[4].kind
            is OptText,
    ensures
        media_decode_err(hm) is None ==> decode_spec(ms, hm, body) == Ok::<Seq<ValModel>, ErrModel>(
            seq![
                ValModel::Bytes(body),
                ValModel::OptText(lookup_header(hm, "content-type"@)),
                ValModel::OptDisposition(disp_of(lookup_header(hm, "content-disposition"@))),
                ValModel::OptText(lookup_header(hm, "cross-origin-resource-policy"@)),
                ValModel::OptText(lookup_header(hm, "cache-control"@)),
            ],
        ),
        media_decode_err(hm) matches Some(e) ==> decode_spec(ms, hm, body) == Err::<
            Seq<ValModel>,
            ErrModel,
        >(e),
{
    assert(ms.take(1).drop_last() =~= ms.take(0));
    assert(ms.take(2).drop_last() =~= ms.take(1));
    assert(ms.take(3).drop_last() =~= ms.take(2));
    assert(ms.take(4).drop_last() =~= ms.take(3));
    assert(ms.take(5).drop_last() =~= ms.take(4));
    assert(ms.take(0) =~= Seq::<FieldMapping>::empty());
    assert(ms.take(5) =~= ms);
    assert(ms.take(1).last() == ms[0]);
    assert(ms.take(2).last() == ms[1]);
    assert(ms.take(3).last() == ms[2]);
    assert(ms.take(4).last() == ms[3]);
    assert(ms.take(5).last() == ms[4]);
    let v0 = ValModel::Bytes(body);
    assert(decode_spec(ms.take(0), hm, body) == Ok::<Seq<ValModel>, ErrModel>(Seq::empty()));
    assert(decode_spec(ms.take(1), hm, body) == Ok::<Seq<ValModel>, ErrModel>(seq![v0])) by {
        assert(decode_spec(ms.take(0), hm, body) == Ok::<Seq<ValModel>, ErrModel>(Seq::empty()));
        assert(Seq::<ValModel>::empty() + seq![v0] =~= seq![v0]);
    }
    if text_header_err(hm, "content-type"@) is Some {
        let e = match text_header_err(hm, "content-type"@) {
            Some(e) => e,
            None => ErrModel::BodyDecodeError,
        };
        assert(decode_spec(ms.take(2), hm, body) == Err::<Seq<ValModel>, ErrModel>(e));
        crate::decode::lemma_decode_err(ms, hm, body, 2);
    } else {
        let v1 = ValModel::OptText(lookup_header(hm, "content-type"@));
        assert(decode_spec(ms.take(2), hm, body) == Ok::<Seq<ValModel>, ErrModel>(seq![v0, v1]))
            by {
            assert(seq![v0] + seq![v1] =~= seq![v0, v1]);
        }
        if disp_header_err(hm, "content-disposition"@) is Some {
            let e = match disp_header_err(hm, "content-disposition"@) {
                Some(e) => e,
                None => ErrModel::BodyDecodeError,
            };
            assert(decode_spec(ms.take(3), hm, body) == Err::<Seq<ValModel>, ErrModel>(e));
            crate::decode::lemma_decode_err(ms, hm, body, 3);
        } else {
            let v2 = ValModel::OptDisposition(disp_of(lookup_header(hm, "content-disposition"@)));
            assert(decode_spec(ms.take(3), hm, body) == Ok::<Seq<ValModel>, ErrModel>(seq![
                v0,
                v1,
                v2,
            ])) by {
                assert(seq![v0, v1] + seq![v2] =~= seq![v0, v1, v2]);
            }
            if text_header_err(hm, "cross-origin-resource-policy"@) is Some {
                let e = match text_header_err(hm, "cross-origin-resource-policy"@) {
                    Some(e) => e,
                    None => ErrModel::BodyDecodeError,
                };
                assert(decode_spec(ms.take(4), hm, body) == Err::<Seq<ValModel>, ErrModel>(e));
                crate::decode::lemma_decode_err(ms, hm, body, 4);
            } else {
                let v3 = ValModel::OptText(lookup_header(hm, "cross-origin-resource-policy"@));
                assert(decode_spec(ms.take(4), hm, body) == Ok::<Seq<ValModel>, ErrModel>(seq![
                    v0,
                    v1,
                    v2,
                    v3,
                ])) by {
                    assert(seq![v0, v1, v2] + seq![v3] =~= seq![v0, v1, v2, v3]);
                }
                if text_header_err(hm, "cache-control"@) is Some {
                    let e = match text_header_err(hm, "cache-control"@) {
                        Some(e) => e,
                        None => ErrModel::BodyDecodeError,
                    };
                    assert(decode_spec(ms.take(5), hm, body) == Err::<Seq<ValModel>, ErrModel>(e));
                    crate::decode::lemma_decode_err(ms, hm, body, 5);
                } else {
                    let v4 = ValModel::OptText(lookup_header(hm, "cache-control"@));
                    assert(decode_spec(ms.take(5), hm, body) == Ok::<Seq<ValModel>, ErrModel>(seq![
                        v0,
                        v1,
                        v2,
                        v3,
                        v4,
                    ])) by {
                        assert(seq![v0, v1, v2, v3] + seq![v4] =~= seq![v0, v1, v2, v3, v4]);
                    }
                }
            }
        }
    }
}

impl Response {
    /// Decodes a wire response: the body becomes the file verbatim; each
    /// optional header, when present, must parse as its field's type;
    /// absence is the field's absent state, never an error.  Fails with
    /// `HeaderParseError` naming the first malformed header and its raw
    /// value.  The status line is not inspected.
    pub fn decode(wire: &WireResponse) -> (r: Result<Response, EndpointError>)
        ensures
            r is Ok <==> media_decode_err(headers_model(wire.headers@)) is None,
            r matches Ok(resp) ==> {
                let hm = headers_model(wire.headers@);
                &&& resp.file@ == wire.body@
                &&& (match resp.content_type {
                    Some(s) => lookup_header(hm, "content-type"@) == Some(s@),
                    None => lookup_header(hm, "content-type"@) is None,
                })
                &&& (match resp.content_disposition {
                    Some(d) => disp_of(lookup_header(hm, "content-disposition"@)) == Some(d@),
                    None => lookup_header(hm, "content-disposition"@) is None,
                })
                &&& (match resp.cross_origin_resource_policy {
                    Some(s) => lookup_header(hm, "cross-origin-resource-policy"@) == Some(s@),
                    None => lookup_header(hm, "cross-origin-resource-policy"@) is None,
                })
                &&& (match resp.cache_control {
                    Some(s) => lookup_header(hm, "cache-control"@) == Some(s@),
                    None => lookup_header(hm, "cache-control"@) is None,
                })
            },
            r matches Err(e) ==> media_decode_err(headers_model(wire.headers@)) == Some(e@),
    {
        let schema = response_fields();
        proof {
            lemma_response_decoding(schema@, headers_model(wire.headers@), wire.body@);
        }
        let vals = match decode_response(&schema, wire) {
            Ok(vals) => vals,
            Err(e) => {
                return Err(e);
            },
        };
        proof {
            assert(vals_model(vals@).len() == vals@.len());
            assert(vals_model(vals@)[0] == vals@[0]@);
            assert(vals_model(vals@)[1] == vals@[1]@);
            assert(vals_model(vals@)[2] == vals@[2]@);
            assert(vals_model(vals@)[3] == vals@[3]@);
            assert(vals_model(vals@)[4] == vals@[4]@);
        }
        let mut vals = vals;
        let v4 = vals.pop().unwrap();
        let v3 = vals.pop().unwrap();
        let v2 = vals.pop().unwrap();
        let v1 = vals.pop().unwrap();
        let v0 = vals.pop().unwrap();
        let file = match v0 {
            FieldValue::Bytes(b) => b,
            _ => {
                proof {
                    assert(false);
                }
                Vec::new()
            },
        };
        let content_type = match v1 {
            FieldValue::OptText(o) => o,
            _ => {
                proof {
                    assert(false);
                }
                None
            },
        };
        let content_disposition = match v2 {
            FieldValue::OptDisposition(o) => o,
            _ => {
                proof {
                    assert(false);
                }
                None
            },
        };
        let cross_origin_resource_policy = match v3 {
            FieldValue::OptText(o) => o,
            _ => {
                proof {
                    assert(false);
                }
                None
            },
        };
        let cache_control = match v4 {
            FieldValue::OptText(o) => o,
            _ => {
                proof {
                    assert(false);
                }
                None
            },
        };
        Ok(
            Response {
                file,
                content_type,
                content_disposition,
                cross_origin_resource_policy,
                cache_control,
            },
        )
    }

    /// Creates a new response with the given file and no headers set.
    pub fn new(file: Vec<u8>) -> (r: Self)
        ensures
            r.file@ == file@,
            r.content_type is None,
            r.content_disposition is None,
            r.cross_origin_resource_policy is None,
            r.cache_control is None,
    {
        Response {
            file,
            content_type: None,
            content_disposition: None,
            cross_origin_resource_policy: None,
            cache_control: None,
        }
    }
}

} // verus!
