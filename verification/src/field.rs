//! Field mappings: where a typed field lives on the wire.
//!
//! A schema is an ordered list of field mappings, one per struct field,
//! each naming the field, its HTTP location, its value kind, an optional
//! default, and whether the field is omitted from the wire when its value
//! equals the default.  One generic encoder and decoder interpret such a
//! schema, instead of bespoke marshaling code per endpoint.

use vstd::prelude::*;
use crate::header::ContentDisposition;
use crate::header::DispositionModel;
use crate::percent::hex_digit;

verus! {

/// Where a field lives in the HTTP message.
#[derive(Clone, Debug, PartialEq, Eq)]
pub enum Location {
    /// A path segment, bound to a template placeholder of the same name.
    Path,
    /// A query parameter.
    Query,
    /// A header with the given name.
    Header(String),
    /// The raw message body, verbatim bytes.
    RawBody,
    /// Part of a single structured body document.  Serializing such a
    /// document is the structured-body codec collaborator's concern; the
    /// engine itself only handles raw or empty bodies.
    JsonBody,
}

/// The kind of a field value.
#[derive(Clone, Copy, Debug, PartialEq, Eq, Structural)]
pub enum ValueKind {
    /// A required string.
    Text,
    /// A duration in milliseconds.
    Millis,
    /// A byte sequence.
    Bytes,
    /// An optional string.
    OptText,
    /// An optional structured `Content-Disposition` value.
    OptDisposition,
}

/// One typed field value.
#[derive(Clone, Debug, PartialEq, Eq)]
pub enum FieldValue {
    /// A required string.
    Text(String),
    /// A duration in milliseconds.
    Millis(u64),
    /// A byte sequence.
    Bytes(Vec<u8>),
    /// An optional string.
    OptText(Option<String>),
    /// An optional structured `Content-Disposition` value.
    OptDisposition(Option<ContentDisposition>),
}

/// Ghost model of a [`FieldValue`]: the same shape over sequences.
pub enum ValModel {
    Text(Seq<char>),
    Millis(u64),
    Bytes(Seq<u8>),
    OptText(Option<Seq<char>>),
    OptDisposition(Option<DispositionModel>),
}

impl View for FieldValue {
    type V = ValModel;

    open spec fn view(&self) -> ValModel {
        match self {
            FieldValue::Text(s) => ValModel::Text(s@),
            FieldValue::Millis(n) => ValModel::Millis(*n),
            FieldValue::Bytes(b) => ValModel::Bytes(b@),
            FieldValue::OptText(o) => ValModel::OptText(
                match o {
                    Some(s) => Some(s@),
                    None => None,
                },
            ),
            FieldValue::OptDisposition(o) => ValModel::OptDisposition(
                match o {
                    Some(d) => Some(d@),
                    None => None,
                },
            ),
        }
    }
}

/// The kind of a field value.
pub open spec fn val_kind(v: FieldValue) -> ValueKind {
    match v {
        FieldValue::Text(_) => ValueKind::Text,
        FieldValue::Millis(_) => ValueKind::Millis,
        FieldValue::Bytes(_) => ValueKind::Bytes,
        FieldValue::OptText(_) => ValueKind::OptText,
        FieldValue::OptDisposition(_) => ValueKind::OptDisposition,
    }
}

/// One field's mapping: its name, HTTP location, value kind, optional
/// default, and whether it is omitted from the wire when equal to the
/// default.
#[derive(Clone, Debug)]
pub struct FieldMapping {
    pub name: String,
    pub location: Location,
    pub kind: ValueKind,
    pub default: Option<FieldValue>,
    pub omit_if_default: bool,
}

/// The value kinds a location can carry: path fields are required
/// non-optional strings; query fields are strings or durations; header
/// fields are plain or optional text, or an optional structured value;
/// the raw body is bytes.  Structured-body fields are outside the
/// engine's scope.
pub open spec fn kind_fits(loc: Location, k: ValueKind) -> bool {
    match loc {
        Location::Path => k is Text,
        Location::Query => k is Text || k is Millis,
        Location::Header(_) => k is Text || k is OptText || k is OptDisposition,
        Location::RawBody => k is Bytes,
        Location::JsonBody => false,
    }
}

/// The header name a mapping binds, if its location is a header.
pub open spec fn header_name_of(m: FieldMapping) -> Option<Seq<char>> {
    match m.location {
        Location::Header(h) => Some(h@),
        _ => None,
    }
}

/// Well-formedness of a schema: at most one raw-body field; kinds fit
/// their locations; path fields have no default and are never omitted;
/// omit-if-default requires a default of the field's kind, on a query or
/// header field only; header names are pairwise distinct.
pub open spec fn schema_wf(ms: Seq<FieldMapping>) -> bool {
    &&& forall|i: int, j: int|
        0 <= i < j < ms.len() ==> !((#[trigger] ms[i]).location is RawBody
            && (#[trigger] ms[j]).location is RawBody)
    &&& forall|i: int|
        0 <= i < ms.len() ==> kind_fits((#[trigger] ms[i]).location, ms[i].kind)
    &&& forall|i: int|
        0 <= i < ms.len() && (#[trigger] ms[i]).location is Path ==> ms[i].default is None
            && !ms[i].omit_if_default
    &&& forall|i: int|
        0 <= i < ms.len() && (#[trigger] ms[i]).omit_if_default ==> (ms[i].default matches Some(d)
            && val_kind(d) == ms[i].kind) && (ms[i].location is Query || ms[i].location is Header)
    &&& forall|i: int, j: int|
        0 <= i < j < ms.len() && header_name_of(#[trigger] ms[i]) is Some ==> header_name_of(
            ms[i],
        ) != header_name_of(#[trigger] ms[j])
}

/// The values fit the schema: one value per mapping, of the declared kind.
pub open spec fn values_match(ms: Seq<FieldMapping>, vs: Seq<FieldValue>) -> bool {
    vs.len() == ms.len() && forall|i: int|
        0 <= i < ms.len() ==> val_kind(#[trigger] vs[i]) == ms[i].kind
}

/// Compares two byte vectors for equality.
pub fn bytes_eq(a: &Vec<u8>, b: &Vec<u8>) -> (r: bool)
    ensures
        r == (a@ == b@),
{
    if a.len() != b.len() {
        return false;
    }
    let mut i: usize = 0;
    while i < a.len()
        invariant
            a@.len() == b@.len(),
            i <= a@.len(),
            forall|j: int| 0 <= j < i ==> a@[j] == b@[j],
        decreases a@.len() - i,
    {
        if a[i] != b[i] {
            return false;
        }
        i = i + 1;
    }
    proof {
        assert(a@ =~= b@);
    }
    true
}

/// Compares two field values for equality of their models.
pub fn val_eq(a: &FieldValue, b: &FieldValue) -> (r: bool)
    ensures
        r == (a@ == b@),
{
    match (a, b) {
        (FieldValue::Text(x), FieldValue::Text(y)) => x.eq(y),
        (FieldValue::Millis(x), FieldValue::Millis(y)) => x == y,
        (FieldValue::Bytes(x), FieldValue::Bytes(y)) => bytes_eq(x, y),
        (FieldValue::OptText(x), FieldValue::OptText(y)) => match (x, y) {
            (Some(s), Some(t)) => s.eq(t),
            (None, None) => true,
            _ => false,
        },
        (FieldValue::OptDisposition(x), FieldValue::OptDisposition(y)) => match (x, y) {
            (Some(d), Some(e)) => {
                let types_same = match (d.disposition, e.disposition) {
                    (crate::header::DispositionType::Inline, crate::header::DispositionType::Inline) => true,
                    (
                        crate::header::DispositionType::Attachment,
                        crate::header::DispositionType::Attachment,
                    ) => true,
                    _ => false,
                };
                types_same && (match (&d.filename, &e.filename) {
                    (Some(s), Some(t)) => s.eq(t),
                    (None, None) => true,
                    _ => false,
                })
            },
            (None, None) => true,
            _ => false,
        },
        _ => false,
    }
}

/// The decimal representation of a non-negative integer.
pub open spec fn dec_str(n: int) -> Seq<char>
    recommends
        n >= 0,
    decreases n,
{
    if n < 10 {
        seq![hex_digit(if 0 <= n { n as u8 } else { 0 })]
    } else {
        dec_str(n / 10) + seq![hex_digit((n % 10) as u8)]
    }
}

/// Renders a duration in milliseconds as its decimal digits.
pub fn u64_dec(n: u64) -> (r: Vec<char>)
    ensures
        r@ == dec_str(n as int),
    decreases n,
{
    if n < 10 {
        let c = crate::percent::hex_digit_char(n as u8);
        let mut r: Vec<char> = Vec::new();
        r.push(c);
        proof {
            assert(r@ =~= dec_str(n as int));
        }
        r
    } else {
        let mut r = u64_dec(n / 10);
        r.push(crate::percent::hex_digit_char((n % 10) as u8));
        r
    }
}

} // verus!
