//! The request encoder: from metadata, schema and field values to a wire
//! request.
//!
//! The encoder resolves the path template for the negotiated version,
//! renders the path from the percent-encoded path fields, builds the query
//! string (omitting a field whose value equals its default when so
//! configured), renders each header field (omitting absent optional
//! values), and takes the raw-body field's bytes verbatim as the body, or
//! leaves the body empty.

use vstd::prelude::*;
use crate::chars::chars_to_string;
use crate::chars::str_chars;
use crate::error::EndpointError;
use crate::error::ErrModel;
use crate::field::FieldMapping;
use crate::field::FieldValue;
use crate::field::Location;
use crate::field::dec_str;
use crate::field::schema_wf;
use crate::field::u64_dec;
use crate::field::val_eq;
use crate::field::values_match;
use crate::header::disposition_wf;
use crate::header::is_header_text;
use crate::header::header_text_ok;
use crate::header::render_disp;
use crate::header::render_disposition;
use crate::metadata::Metadata;
use crate::metadata::resolve;
use crate::metadata::resolve_spec;
use crate::percent::pe_str;
use crate::percent::percent_encode_chars;
use crate::template::render;
use crate::template::render_spec;
use crate::version::StableVersion;
use crate::wire::WireRequest;

verus! {

/// The (name, value) pairs of the path fields, in schema order.
pub open spec fn path_pairs(ms: Seq<FieldMapping>, vs: Seq<FieldValue>) -> Seq<(String, String)>
    decreases ms.len(),
{
    if ms.len() == 0 || ms.len() != vs.len() {
        Seq::empty()
    } else {
        let pre = path_pairs(ms.drop_last(), vs.drop_last());
        match (ms.last().location, vs.last()) {
            (Location::Path, FieldValue::Text(t)) => pre + seq![(ms.last().name, t)],
            _ => pre,
        }
    }
}

/// The field is left off the wire: it is configured to be omitted when
/// equal to its default, and its value equals the default.
pub open spec fn omitted(m: FieldMapping, v: FieldValue) -> bool {
    m.omit_if_default && match m.default {
        Some(d) => v@ == d@,
        None => false,
    }
}

/// The textual form of a query field value: a string percent-encoded, a
/// duration in decimal milliseconds.
pub open spec fn query_value_text(v: FieldValue) -> Seq<char> {
    match v {
        FieldValue::Text(t) => pe_str(t@),
        FieldValue::Millis(n) => dec_str(n as int),
        _ => Seq::empty(),
    }
}

/// The query string: `name=value` for each query field not omitted, in
/// schema order, joined with `&`.
pub open spec fn query_str(ms: Seq<FieldMapping>, vs: Seq<FieldValue>) -> Seq<char>
    decreases ms.len(),
{
    if ms.len() == 0 || ms.len() != vs.len() {
        Seq::empty()
    } else {
        let pre = query_str(ms.drop_last(), vs.drop_last());
        if ms.last().location is Query && !omitted(ms.last(), vs.last()) {
            let item = ms.last().name@ + seq!['='] + query_value_text(vs.last());
            if pre.len() == 0 {
                item
            } else {
                pre + seq!['&'] + item
            }
        } else {
            pre
        }
    }
}

/// The outcome of rendering one header field's value: left off the wire,
/// rendered text, or unrepresentable.
pub enum HvRender {
    Omitted,
    Rendered(Seq<char>),
    Invalid,
}

/// Renders one header field value: plain text must be valid header text,
/// an absent optional value is omitted, a structured value is rendered by
/// its own rule.
pub open spec fn render_header_value(v: FieldValue) -> HvRender {
    match v {
        FieldValue::Text(t) => if is_header_text(t@) {
            HvRender::Rendered(t@)
        } else {
            HvRender::Invalid
        },
        FieldValue::OptText(o) => match o {
            None => HvRender::Omitted,
            Some(t) => if is_header_text(t@) {
                HvRender::Rendered(t@)
            } else {
                HvRender::Invalid
            },
        },
        FieldValue::OptDisposition(o) => match o {
            None => HvRender::Omitted,
            Some(d) => if disposition_wf(d@) {
                HvRender::Rendered(render_disp(d@))
            } else {
                HvRender::Invalid
            },
        },
        _ => HvRender::Invalid,
    }
}

/// The rendered headers, in schema order: the first unrepresentable value
/// fails the whole encoding with `HeaderEncodeError`.
pub open spec fn header_list(ms: Seq<FieldMapping>, vs: Seq<FieldValue>) -> Result<
    Seq<(Seq<char>, Seq<char>)>,
    ErrModel,
>
    decreases ms.len(),
{
    if ms.len() == 0 || ms.len() != vs.len() {
        Ok(Seq::empty())
    } else {
        match header_list(ms.drop_last(), vs.drop_last()) {
            Err(e) => Err(e),
            Ok(pre) => match ms.last().location {
                Location::Header(h) => match render_header_value(vs.last()) {
                    HvRender::Omitted => Ok(pre),
                    HvRender::Rendered(s) => Ok(pre + seq![(h@, s)]),
                    HvRender::Invalid => Err(ErrModel::HeaderEncodeError(h@)),
                },
                _ => Ok(pre),
            },
        }
    }
}

/// The body: the raw-body field's bytes verbatim, or empty when the
/// schema has none.
pub open spec fn body_bytes(ms: Seq<FieldMapping>, vs: Seq<FieldValue>) -> Seq<u8>
    decreases ms.len(),
{
    if ms.len() == 0 || ms.len() != vs.len() {
        Seq::empty()
    } else {
        let pre = body_bytes(ms.drop_last(), vs.drop_last());
        match (ms.last().location, vs.last()) {
            (Location::RawBody, FieldValue::Bytes(b)) => b@,
            _ => pre,
        }
    }
}

/// The ghost model of a rendered header vector.
pub open spec fn headers_model(hdrs: Seq<(String, String)>) -> Seq<(Seq<char>, Seq<char>)> {
    hdrs.map_values(|p: (String, String)| (p.0@, p.1@))
}

/// The first error of an encoding, in evaluation order: version
/// resolution, then path rendering, then header rendering.
pub open spec fn encode_err(
    meta: Metadata,
    ms: Seq<FieldMapping>,
    vs: Seq<FieldValue>,
    version: StableVersion,
) -> Option<ErrModel> {
    match resolve_spec(meta.history@, version) {
        Err(e) => Some(e),
        Ok(i) => match render_spec(meta.history@[i].1.segments@, path_pairs(ms, vs)) {
            Err(e) => Some(e),
            Ok(_) => match header_list(ms, vs) {
                Err(e) => Some(e),
                Ok(_) => None,
            },
        },
    }
}

/// An error of any schema prefix fails the whole header rendering.
proof fn lemma_header_list_err(ms: Seq<FieldMapping>, vs: Seq<FieldValue>, k: int)
    requires
        ms.len() == vs.len(),
        0 <= k <= ms.len(),
        header_list(ms.take(k), vs.take(k)) is Err,
    ensures
        header_list(ms, vs) == header_list(ms.take(k), vs.take(k)),
    decreases ms.len() - k,
{
    if k < ms.len() {
        assert(ms.take(k + 1).drop_last() =~= ms.take(k));
        assert(vs.take(k + 1).drop_last() =~= vs.take(k));
        lemma_header_list_err(ms, vs, k + 1);
    } else {
        assert(ms.take(k) =~= ms);
        assert(vs.take(k) =~= vs);
    }
}

/// Assembles a wire request from metadata, schema and values for a
/// negotiated version: the resolved and rendered path, the query string,
/// the rendered headers and the raw body, or the first error.
#[verifier::loop_isolation(false)]
#[verifier::rlimit(100)]
pub fn encode_request(
    meta: &Metadata,
    schema: &Vec<FieldMapping>,
    values: &Vec<FieldValue>,
    version: StableVersion,
) -> (r: Result<WireRequest, EndpointError>)
    requires
        schema_wf(schema@),
        values_match(schema@, values@),
    ensures
        match r {
            Err(e) => encode_err(*meta, schema@, values@, version) == Some(e@),
            Ok(w) => {
                &&& encode_err(*meta, schema@, values@, version) is None
                &&& w.method == meta.method
                &&& (resolve_spec(meta.history@, version) matches Ok(i) && render_spec(
                    meta.history@[i].1.segments@,
                    path_pairs(schema@, values@),
                ) == Ok::<Seq<char>, ErrModel>(w.path@))
                &&& w.query@ == query_str(schema@, values@)
                &&& header_list(schema@, values@) == Ok::<
                    Seq<(Seq<char>, Seq<char>)>,
                    ErrModel,
                >(headers_model(w.headers@))
                &&& w.body@ == body_bytes(schema@, values@)
            },
        },
{
    let ghost ms = schema@;
    let ghost vs = values@;
    let n = schema.len();

    let idx = match resolve(meta, version) {
        Ok(i) => i,
        Err(e) => {
            return Err(e);
        },
    };

    // Path fields, in schema order.
    let mut pairs: Vec<(String, String)> = Vec::new();
    let mut i: usize = 0;
    while i < n
        invariant
            ms == schema@,
            vs == values@,
            n == ms.len(),
            values_match(ms, vs),
            i <= n,
            pairs@ == path_pairs(ms.take(i as int), vs.take(i as int)),
        decreases n - i,
    {
        proof {
            assert(ms.take(i + 1).drop_last() =~= ms.take(i as int));
            assert(vs.take(i + 1).drop_last() =~= vs.take(i as int));
            assert(ms.take(i + 1).last() == ms[i as int]);
            assert(vs.take(i + 1).last() == vs[i as int]);
        }
        if matches!(&schema[i].location, Location::Path) {
            match &values[i] {
                FieldValue::Text(t) => {
                    pairs.push((schema[i].name.clone(), t.clone()));
                    proof {
                        assert(pairs@ =~= path_pairs(ms.take(i + 1), vs.take(i + 1)));
                    }
                },
                _ => {
                    proof {
                        assert(false);
                    }
                },
            }
        }
        i = i + 1;
    }
    proof {
        assert(ms.take(n as int) =~= ms);
        assert(vs.take(n as int) =~= vs);
    }

    let path = match render(&meta.history[idx].1, &pairs) {
        Ok(p) => p,
        Err(e) => {
            return Err(e);
        },
    };

    // Query string.
    let mut q: Vec<char> = Vec::new();
    let mut i: usize = 0;
    while i < n
        invariant
            ms == schema@,
            vs == values@,
            n == ms.len(),
            schema_wf(ms),
            values_match(ms, vs),
            i <= n,
            q@ == query_str(ms.take(i as int), vs.take(i as int)),
        decreases n - i,
    {
        proof {
            assert(ms.take(i + 1).drop_last() =~= ms.take(i as int));
            assert(vs.take(i + 1).drop_last() =~= vs.take(i as int));
            assert(ms.take(i + 1).last() == ms[i as int]);
            assert(vs.take(i + 1).last() == vs[i as int]);
        }
        if matches!(&schema[i].location, Location::Query) {
            let omit = schema[i].omit_if_default && (match &schema[i].default {
                Some(d) => val_eq(d, &values[i]),
                None => false,
            });
            if !omit {
                if q.len() > 0 {
                    q.push('&');
                }
                let mut nm = str_chars(schema[i].name.as_str());
                q.append(&mut nm);
                q.push('=');
                match &values[i] {
                    FieldValue::Text(t) => {
                        let mut tv = percent_encode_chars(t.as_str());
                        q.append(&mut tv);
                    },
                    FieldValue::Millis(m) => {
                        let mut tv = u64_dec(*m);
                        q.append(&mut tv);
                    },
                    _ => {
                        proof {
                            assert(false);
                        }
                    },
                }
                proof {
                    assert(q@ =~= query_str(ms.take(i + 1), vs.take(i + 1)));
                }
            }
        }
        i = i + 1;
    }

    // Headers.
    let mut hdrs: Vec<(String, String)> = Vec::new();
    let mut i: usize = 0;
    proof {
        assert(ms.take(0) =~= Seq::<FieldMapping>::empty());
        assert(vs.take(0) =~= Seq::<FieldValue>::empty());
        assert(headers_model(hdrs@) =~= Seq::<(Seq<char>, Seq<char>)>::empty());
    }
    while i < n
        invariant
            ms == schema@,
            vs == values@,
            n == ms.len(),
            schema_wf(ms),
            values_match(ms, vs),
            i <= n,
            header_list(ms.take(i as int), vs.take(i as int)) == Ok::<
                Seq<(Seq<char>, Seq<char>)>,
                ErrModel,
            >(headers_model(hdrs@)),
        decreases n - i,
    {
        proof {
            assert(ms.take(i + 1).drop_last() =~= ms.take(i as int));
            assert(vs.take(i + 1).drop_last() =~= vs.take(i as int));
            assert(ms.take(i + 1).last() == ms[i as int]);
            assert(vs.take(i + 1).last() == vs[i as int]);
        }
        let loc = &schema[i].location;
        match loc {
            Location::Header(h) => {
                match &values[i] {
                    FieldValue::Text(t) => {
                        if header_text_ok(t.as_str()) {
                            hdrs.push((h.clone(), t.clone()));
                            proof {
                                assert(headers_model(hdrs@) =~= header_list(
                                    ms.take(i + 1),
                                    vs.take(i + 1),
                                )->Ok_0);
                            }
                        } else {
                            proof {
                                lemma_header_list_err(ms, vs, i + 1);
                            }
                            return Err(EndpointError::HeaderEncodeError(h.clone()));
                        }
                    },
                    FieldValue::OptText(o) => {
                        match o {
                            None => {},
                            Some(t) => {
                                if header_text_ok(t.as_str()) {
                                    hdrs.push((h.clone(), t.clone()));
                                    proof {
                                        assert(headers_model(hdrs@) =~= header_list(
                                            ms.take(i + 1),
                                            vs.take(i + 1),
                                        )->Ok_0);
                                    }
                                } else {
                                    proof {
                                        lemma_header_list_err(ms, vs, i + 1);
                                    }
                                    return Err(EndpointError::HeaderEncodeError(h.clone()));
                                }
                            },
                        }
                    },
                    FieldValue::OptDisposition(o) => {
                        match o {
                            None => {},
                            Some(d) => {
                                match render_disposition(d) {
                                    Some(s) => {
                                        hdrs.push((h.clone(), s));
                                        proof {
                                            assert(headers_model(hdrs@) =~= header_list(
                                                ms.take(i + 1),
                                                vs.take(i + 1),
                                            )->Ok_0);
                                        }
                                    },
                                    None => {
                                        proof {
                                            lemma_header_list_err(ms, vs, i + 1);
                                        }
                                        return Err(EndpointError::HeaderEncodeError(h.clone()));
                                    },
                                }
                            },
                        }
                    },
                    _ => {
                        proof {
                            assert(false);
                        }
                    },
                }
            },
            _ => {},
        }
        i = i + 1;
    }

    // Body.
    let mut body: Vec<u8> = Vec::new();
    let mut i: usize = 0;
    while i < n
        invariant
            ms == schema@,
            vs == values@,
            n == ms.len(),
            schema_wf(ms),
            values_match(ms, vs),
            i <= n,
            body@ == body_bytes(ms.take(i as int), vs.take(i as int)),
        decreases n - i,
    {
        proof {
            assert(ms.take(i + 1).drop_last() =~= ms.take(i as int));
            assert(vs.take(i + 1).drop_last() =~= vs.take(i as int));
            assert(ms.take(i + 1).last() == ms[i as int]);
            assert(vs.take(i + 1).last() == vs[i as int]);
        }
        if matches!(&schema[i].location, Location::RawBody) {
            match &values[i] {
                FieldValue::Bytes(b) => {
                    let mut j: usize = 0;
                    let mut copy: Vec<u8> = Vec::new();
                    while j < b.len()
                        invariant
                            j <= b@.len(),
                            copy@ == b@.take(j as int),
                        decreases b@.len() - j,
                    {
                        copy.push(b[j]);
                        proof {
                            assert(b@.take(j + 1) =~= b@.take(j as int).push(b@[j as int]));
                        }
                        j = j + 1;
                    }
                    proof {
                        assert(b@.take(b@.len() as int) =~= b@);
                    }
                    body = copy;
                },
                _ => {
                    proof {
                        assert(false);
                    }
                },
            }
        }
        i = i + 1;
    }

    proof {
        assert(ms.take(n as int) =~= ms);
        assert(vs.take(n as int) =~= vs);
    }
    Ok(
        WireRequest {
            method: meta.method,
            path,
            query: chars_to_string(q),
            headers: hdrs,
            body,
        },
    )
}

} // verus!
