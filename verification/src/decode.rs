//! The response decoder: from a wire response and a schema back to typed
//! field values; and the law that decoding inverts encoding.
//!
//! For each header field the named header is read and parsed: absence is
//! the absent state for an optional field and `MissingHeader` for a
//! required one; a present but malformed value is `HeaderParseError` with
//! the header name and the raw value.  A raw-body field captures the whole
//! body verbatim.  No partial result is ever returned.

use vstd::prelude::*;
use crate::error::EndpointError;
use crate::error::ErrModel;
use crate::field::FieldMapping;
use crate::field::FieldValue;
use crate::field::Location;
use crate::field::ValModel;
use crate::field::ValueKind;
use crate::field::header_name_of;
use crate::field::schema_wf;
use crate::field::val_kind;
use crate::field::values_match;
use crate::header::is_header_text;
use crate::header::header_text_ok;
use crate::header::parse_disp;
use crate::header::parse_disposition;
use crate::header::lemma_disposition_round_trip;
use crate::encode::HvRender;
use crate::encode::body_bytes;
use crate::encode::header_list;
use crate::encode::headers_model;
use crate::encode::render_header_value;
use crate::wire::WireResponse;

verus! {

/// The value of the first header with the given name, if any.
pub open spec fn lookup_header(hdrs: Seq<(Seq<char>, Seq<char>)>, name: Seq<char>) -> Option<
    Seq<char>,
>
    decreases hdrs.len(),
{
    if hdrs.len() == 0 {
        None
    } else if hdrs[0].0 == name {
        Some(hdrs[0].1)
    } else {
        lookup_header(hdrs.drop_first(), name)
    }
}

/// A response schema: every field lives in a header or in the raw body.
pub open spec fn response_schema(ms: Seq<FieldMapping>) -> bool {
    forall|i: int|
        0 <= i < ms.len() ==> (#[trigger] ms[i]).location is Header || ms[i].location is RawBody
}

/// The decode of one field from the wire headers and body.
pub open spec fn decode_field(m: FieldMapping, hdrs: Seq<(Seq<char>, Seq<char>)>, body: Seq<u8>) -> Result<
    ValModel,
    ErrModel,
> {
    match m.location {
        Location::Header(h) => match lookup_header(hdrs, h@) {
            None => match m.kind {
                ValueKind::OptText => Ok(ValModel::OptText(None)),
                ValueKind::OptDisposition => Ok(ValModel::OptDisposition(None)),
                _ => Err(ErrModel::MissingHeader(h@)),
            },
            Some(v) => match m.kind {
                ValueKind::Text => if is_header_text(v) {
                    Ok(ValModel::Text(v))
                } else {
                    Err(ErrModel::HeaderParseError(h@, v))
                },
                ValueKind::OptText => if is_header_text(v) {
                    Ok(ValModel::OptText(Some(v)))
                } else {
                    Err(ErrModel::HeaderParseError(h@, v))
                },
                ValueKind::OptDisposition => match parse_disp(v) {
                    Some(d) => Ok(ValModel::OptDisposition(Some(d))),
                    None => Err(ErrModel::HeaderParseError(h@, v)),
                },
                _ => Err(ErrModel::MissingHeader(h@)),
            },
        },
        Location::RawBody => Ok(ValModel::Bytes(body)),
        // A structured-body field would be the body codec collaborator's
        // to decode; response schemas declare none (see the crate docs).
        _ => Err(ErrModel::BodyDecodeError),
    }
}

/// The ghost models of a value vector.
pub open spec fn vals_model(vs: Seq<FieldValue>) -> Seq<ValModel> {
    vs.map_values(|v: FieldValue| v@)
}

/// The decode of a whole schema, in order: the first failing field's
/// error, if any.
pub open spec fn decode_spec(
    ms: Seq<FieldMapping>,
    hdrs: Seq<(Seq<char>, Seq<char>)>,
    body: Seq<u8>,
) -> Result<Seq<ValModel>, ErrModel>
    decreases ms.len(),
{
    if ms.len() == 0 {
        Ok(Seq::empty())
    } else {
        match decode_spec(ms.drop_last(), hdrs, body) {
            Err(e) => Err(e),
            Ok(pre) => match decode_field(ms.last(), hdrs, body) {
                Err(e) => Err(e),
                Ok(v) => Ok(pre + seq![v]),
            },
        }
    }
}

/// A failure of any schema prefix fails the whole decode.
pub(crate) proof fn lemma_decode_err(
    ms: Seq<FieldMapping>,
    hdrs: Seq<(Seq<char>, Seq<char>)>,
    body: Seq<u8>,
    k: int,
)
    requires
        0 <= k <= ms.len(),
        decode_spec(ms.take(k), hdrs, body) is Err,
    ensures
        decode_spec(ms, hdrs, body) == decode_spec(ms.take(k), hdrs, body),
    decreases ms.len() - k,
{
    if k < ms.len() {
        assert(ms.take(k + 1).drop_last() =~= ms.take(k));
        lemma_decode_err(ms, hdrs, body, k + 1);
    } else {
        assert(ms.take(k) =~= ms);
    }
}

/// Finds the value of the first header with the given name.
fn find_header<'a>(hdrs: &'a Vec<(String, String)>, name: &String) -> (r: Option<&'a String>)
    ensures
        match r {
            Some(v) => lookup_header(headers_model(hdrs@), name@) == Some(v@),
            None => lookup_header(headers_model(hdrs@), name@) is None,
        },
{
    let ghost hm = headers_model(hdrs@);
    let mut i: usize = 0;
    proof {
        assert(hm.skip(0) =~= hm);
    }
    while i < hdrs.len()
        invariant
            hm == headers_model(hdrs@),
            hm.len() == hdrs@.len(),
            i <= hdrs@.len(),
            lookup_header(hm, name@) == lookup_header(hm.skip(i as int), name@),
        decreases hdrs@.len() - i,
    {
        proof {
            assert(hm.skip(i as int)[0] == hm[i as int]);
            assert(hm.skip(i as int).drop_first() =~= hm.skip(i + 1));
        }
        if hdrs[i].0.eq(name) {
            return Some(&hdrs[i].1);
        }
        i = i + 1;
    }
    proof {
        assert(hm.skip(hm.len() as int) =~= Seq::<(Seq<char>, Seq<char>)>::empty());
    }
    None
}

/// Decodes a wire response into one typed value per schema field: headers
/// parsed by their declared kind, absence allowed only for optional
/// fields, the raw body captured verbatim.  The status line is never
/// inspected.
#[verifier::loop_isolation(false)]
#[verifier::rlimit(100)]
pub fn decode_response(schema: &Vec<FieldMapping>, wire: &WireResponse) -> (r: Result<
    Vec<FieldValue>,
    EndpointError,
>)
    requires
        schema_wf(schema@),
        response_schema(schema@),
    ensures
        match r {
            Ok(vals) => decode_spec(schema@, headers_model(wire.headers@), wire.body@) == Ok::<
                Seq<ValModel>,
                ErrModel,
            >(vals_model(vals@)) && values_match(schema@, vals@),
            Err(e) => decode_spec(schema@, headers_model(wire.headers@), wire.body@) == Err::<
                Seq<ValModel>,
                ErrModel,
            >(e@),
        },
{
    let ghost ms = schema@;
    let ghost hm = headers_model(wire.headers@);
    let n = schema.len();
    let mut out: Vec<FieldValue> = Vec::new();
    let mut i: usize = 0;
    proof {
        assert(ms.take(0) =~= Seq::<FieldMapping>::empty());
        assert(vals_model(out@) =~= Seq::<ValModel>::empty());
    }
    while i < n
        invariant
            i <= n,
            out@.len() == i,
            decode_spec(ms.take(i as int), hm, wire.body@) == Ok::<Seq<ValModel>, ErrModel>(
                vals_model(out@),
            ),
            forall|j: int| 0 <= j < i ==> val_kind(#[trigger] out@[j]) == ms[j].kind,
        decreases n - i,
    {
        proof {
            assert(ms.take(i + 1).drop_last() =~= ms.take(i as int));
            assert(ms.take(i + 1).last() == ms[i as int]);
        }
        let ghost out0 = out@;
        match &schema[i].location {
            Location::Header(h) => {
                match find_header(&wire.headers, h) {
                    None => {
                        match schema[i].kind {
                            ValueKind::OptText => {
                                out.push(FieldValue::OptText(None));
                            },
                            ValueKind::OptDisposition => {
                                out.push(FieldValue::OptDisposition(None));
                            },
                            _ => {
                                proof {
                                    lemma_decode_err(ms, hm, wire.body@, i + 1);
                                }
                                return Err(EndpointError::MissingHeader(h.clone()));
                            },
                        }
                    },
                    Some(v) => {
                        match schema[i].kind {
                            ValueKind::Text => {
                                if header_text_ok(v.as_str()) {
                                    out.push(FieldValue::Text(v.clone()));
                                } else {
                                    proof {
                                        lemma_decode_err(ms, hm, wire.body@, i + 1);
                                    }
                                    return Err(
                                        EndpointError::HeaderParseError(h.clone(), v.clone()),
                                    );
                                }
                            },
                            ValueKind::OptText => {
                                if header_text_ok(v.as_str()) {
                                    out.push(FieldValue::OptText(Some(v.clone())));
                                } else {
                                    proof {
                                        lemma_decode_err(ms, hm, wire.body@, i + 1);
                                    }
                                    return Err(
                                        EndpointError::HeaderParseError(h.clone(), v.clone()),
                                    );
                                }
                            },
                            ValueKind::OptDisposition => {
                                match parse_disposition(v.as_str()) {
                                    Some(d) => {
                                        out.push(FieldValue::OptDisposition(Some(d)));
                                    },
                                    None => {
                                        proof {
                                            lemma_decode_err(ms, hm, wire.body@, i + 1);
                                        }
                                        return Err(
                                            EndpointError::HeaderParseError(h.clone(), v.clone()),
                                        );
                                    },
                                }
                            },
                            _ => {
                                proof {
                                    lemma_decode_err(ms, hm, wire.body@, i + 1);
                                }
                                return Err(EndpointError::MissingHeader(h.clone()));
                            },
                        }
                    },
                }
            },
            Location::RawBody => {
                let mut copy: Vec<u8> = Vec::new();
                let mut j: usize = 0;
                while j < wire.body.len()
                    invariant
                        j <= wire.body@.len(),
                        copy@ == wire.body@.take(j as int),
                    decreases wire.body@.len() - j,
                {
                    copy.push(wire.body[j]);
                    proof {
                        assert(wire.body@.take(j + 1) =~= wire.body@.take(j as int).push(
                            wire.body@[j as int],
                        ));
                    }
                    j = j + 1;
                }
                proof {
                    assert(wire.body@.take(wire.body@.len() as int) =~= wire.body@);
                }
                out.push(FieldValue::Bytes(copy));
            },
            _ => {
                proof {
                    assert(false);
                }
            },
        }
        proof {
            assert(vals_model(out@) =~= vals_model(out0).push(out@[i as int]@));
            assert(vals_model(out@) =~= vals_model(out0) + seq![out@[i as int]@]);
        }
        i = i + 1;
    }
    proof {
        assert(ms.take(n as int) =~= ms);
    }
    Ok(out)
}

/// Looking a name up after one more rendered header: an earlier binding
/// wins, else the new header answers for its own name.
proof fn lemma_lookup_snoc(
    hdrs: Seq<(Seq<char>, Seq<char>)>,
    x: Seq<char>,
    y: Seq<char>,
    name: Seq<char>,
)
    ensures
        lookup_header(hdrs + seq![(x, y)], name) == (match lookup_header(hdrs, name) {
            Some(v) => Some(v),
            None => if x == name {
                Some(y)
            } else {
                None
            },
        }),
    decreases hdrs.len(),
{
    if hdrs.len() == 0 {
        assert((hdrs + seq![(x, y)])[0] == (x, y));
        assert((hdrs + seq![(x, y)]).drop_first() =~= Seq::<(Seq<char>, Seq<char>)>::empty());
    } else {
        assert((hdrs + seq![(x, y)])[0] == hdrs[0]);
        assert((hdrs + seq![(x, y)]).drop_first() =~= hdrs.drop_first() + seq![(x, y)]);
        lemma_lookup_snoc(hdrs.drop_first(), x, y, name);
    }
}

/// A name bound by no header mapping of the schema is absent from the
/// rendered headers.
proof fn lemma_lookup_absent(ms: Seq<FieldMapping>, vs: Seq<FieldValue>, name: Seq<char>)
    requires
        ms.len() == vs.len(),
        header_list(ms, vs) is Ok,
        forall|j: int| 0 <= j < ms.len() ==> header_name_of(#[trigger] ms[j]) != Some(name),
    ensures
        lookup_header(header_list(ms, vs)->Ok_0, name) is None,
    decreases ms.len(),
{
    if ms.len() == 0 {
    } else {
        assert(forall|j: int|
            0 <= j < ms.drop_last().len() ==> header_name_of(#[trigger] ms.drop_last()[j])
                != Some(name)) by {
            assert(forall|j: int|
                0 <= j < ms.drop_last().len() ==> ms.drop_last()[j] == ms[j]);
        }
        lemma_lookup_absent(ms.drop_last(), vs.drop_last(), name);
        let pre = header_list(ms.drop_last(), vs.drop_last())->Ok_0;
        match ms.last().location {
            Location::Header(h) => {
                match render_header_value(vs.last()) {
                    HvRender::Rendered(s) => {
                        assert(header_name_of(ms[ms.len() - 1]) == Some(h@));
                        lemma_lookup_snoc(pre, h@, s, name);
                    },
                    _ => {},
                }
            },
            _ => {},
        }
    }
}

/// Looking up the name of header mapping `i` in the rendered headers
/// finds exactly what that field rendered to: nothing when it was
/// omitted, its rendered text otherwise.
proof fn lemma_lookup_field(ms: Seq<FieldMapping>, vs: Seq<FieldValue>, i: int, name: Seq<char>)
    requires
        schema_wf(ms),
        values_match(ms, vs),
        header_list(ms, vs) is Ok,
        0 <= i < ms.len(),
        header_name_of(ms[i]) == Some(name),
    ensures
        match render_header_value(vs[i]) {
            HvRender::Omitted => lookup_header(header_list(ms, vs)->Ok_0, name) is None,
            HvRender::Rendered(s) => lookup_header(header_list(ms, vs)->Ok_0, name) == Some(s),
            HvRender::Invalid => true,
        },
    decreases ms.len(),
{
    let hs = header_list(ms, vs)->Ok_0;
    let pre_ms = ms.drop_last();
    let pre_vs = vs.drop_last();
    assert(forall|j: int| 0 <= j < pre_ms.len() ==> pre_ms[j] == ms[j]);
    assert(forall|j: int| 0 <= j < pre_vs.len() ==> pre_vs[j] == vs[j]);
    let pre = header_list(pre_ms, pre_vs)->Ok_0;
    if i == ms.len() - 1 {
        assert(forall|j: int|
            0 <= j < pre_ms.len() ==> header_name_of(#[trigger] pre_ms[j]) != Some(name));
        lemma_lookup_absent(pre_ms, pre_vs, name);
        match render_header_value(vs[i]) {
            HvRender::Rendered(s) => {
                lemma_lookup_snoc(pre, name, s, name);
            },
            _ => {},
        }
    } else {
        lemma_lookup_field(pre_ms, pre_vs, i, name);
        match ms.last().location {
            Location::Header(h) => {
                match render_header_value(vs.last()) {
                    HvRender::Rendered(s) => {
                        assert(header_name_of(ms[ms.len() - 1]) == Some(h@));
                        assert(h@ != name);
                        lemma_lookup_snoc(pre, h@, s, name);
                    },
                    _ => {},
                }
            },
            _ => {},
        }
    }
}

/// A schema whose headers all rendered has no unrepresentable header
/// value.
proof fn lemma_header_list_ok(ms: Seq<FieldMapping>, vs: Seq<FieldValue>, i: int)
    requires
        ms.len() == vs.len(),
        header_list(ms, vs) is Ok,
        0 <= i < ms.len(),
        ms[i].location is Header,
    ensures
        !(render_header_value(vs[i]) is Invalid),
    decreases ms.len(),
{
    if i < ms.len() - 1 {
        assert(forall|j: int| 0 <= j < ms.drop_last().len() ==> ms.drop_last()[j] == ms[j]);
        assert(forall|j: int| 0 <= j < vs.drop_last().len() ==> vs.drop_last()[j] == vs[j]);
        lemma_header_list_ok(ms.drop_last(), vs.drop_last(), i);
    }
}

/// The body that was encoded is the bytes of the raw-body field.
proof fn lemma_body_at(ms: Seq<FieldMapping>, vs: Seq<FieldValue>, i: int)
    requires
        schema_wf(ms),
        values_match(ms, vs),
        0 <= i < ms.len(),
        ms[i].location is RawBody,
    ensures
        body_bytes(ms, vs) == (match vs[i] {
            FieldValue::Bytes(b) => b@,
            _ => Seq::<u8>::empty(),
        }),
    decreases ms.len(),
{
    if i == ms.len() - 1 {
    } else {
        assert(!(ms[ms.len() - 1].location is RawBody));
        assert(forall|j: int| 0 <= j < ms.drop_last().len() ==> ms.drop_last()[j] == ms[j]);
        assert(forall|j: int| 0 <= j < vs.drop_last().len() ==> vs.drop_last()[j] == vs[j]);
        lemma_body_at(ms.drop_last(), vs.drop_last(), i);
    }
}

/// Decoding a prefix of the schema from the full encoded headers and body
/// reconstructs the prefix of the values.
proof fn lemma_round_trip_prefix(ms: Seq<FieldMapping>, vs: Seq<FieldValue>, k: int)
    requires
        schema_wf(ms),
        values_match(ms, vs),
        response_schema(ms),
        header_list(ms, vs) is Ok,
        0 <= k <= ms.len(),
    ensures
        decode_spec(ms.take(k), header_list(ms, vs)->Ok_0, body_bytes(ms, vs)) == Ok::<
            Seq<ValModel>,
            ErrModel,
        >(vals_model(vs.take(k))),
    decreases k,
{
    let hs = header_list(ms, vs)->Ok_0;
    let body = body_bytes(ms, vs);
    if k == 0 {
        assert(ms.take(0) =~= Seq::<FieldMapping>::empty());
        assert(vals_model(vs.take(0)) =~= Seq::<ValModel>::empty());
    } else {
        lemma_round_trip_prefix(ms, vs, k - 1);
        assert(ms.take(k).drop_last() =~= ms.take(k - 1));
        assert(ms.take(k).last() == ms[k - 1]);
        let m = ms[k - 1];
        let v = vs[k - 1];
        match m.location {
            Location::Header(h) => {
                lemma_header_list_ok(ms, vs, k - 1);
                lemma_lookup_field(ms, vs, k - 1, h@);
                match render_header_value(v) {
                    HvRender::Omitted => {
                        assert(decode_field(m, hs, body) == Ok::<ValModel, ErrModel>(v@));
                    },
                    HvRender::Rendered(s) => {
                        match v {
                            FieldValue::OptDisposition(o) => {
                                let d = o->0;
                                lemma_disposition_round_trip(d@);
                                assert(decode_field(m, hs, body) == Ok::<ValModel, ErrModel>(v@));
                            },
                            _ => {
                                assert(decode_field(m, hs, body) == Ok::<ValModel, ErrModel>(v@));
                            },
                        }
                    },
                    HvRender::Invalid => {
                        assert(false);
                    },
                }
            },
            Location::RawBody => {
                lemma_body_at(ms, vs, k - 1);
                assert(decode_field(m, hs, body) == Ok::<ValModel, ErrModel>(v@));
            },
            _ => {
                assert(false);
            },
        }
        assert(vals_model(vs.take(k)) =~= vals_model(vs.take(k - 1)) + seq![v@]);
    }
}

/// Round trip: decoding an encoded response reconstructs every field.
/// For any well-formed response schema and fitting values whose headers
/// all rendered, decoding the rendered headers and encoded body yields
/// exactly the original values.
pub proof fn lemma_response_round_trip(ms: Seq<FieldMapping>, vs: Seq<FieldValue>)
    requires
        schema_wf(ms),
        values_match(ms, vs),
        response_schema(ms),
        header_list(ms, vs) is Ok,
    ensures
        decode_spec(ms, header_list(ms, vs)->Ok_0, body_bytes(ms, vs)) == Ok::<
            Seq<ValModel>,
            ErrModel,
        >(vals_model(vs)),
{
    lemma_round_trip_prefix(ms, vs, ms.len() as int);
    assert(ms.take(ms.len() as int) =~= ms);
    assert(vs.take(vs.len() as int) =~= vs);
}

} // verus!
