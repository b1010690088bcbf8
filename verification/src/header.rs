//! Typed header values.
//!
//! A header field either carries plain header text (visible ASCII), or a
//! structured `Content-Disposition` value with a disposition type and an
//! optional filename, accepted quoted or as an unquoted token and always
//! rendered quoted.  Parsing failure and absence are distinct outcomes:
//! an absent optional header decodes to the absent state, a present but
//! malformed value is an error.

use vstd::prelude::*;
use crate::chars::chars_to_string;
use crate::chars::str_chars;

verus! {

/// The character may stand in plain header text: visible ASCII or space.
pub open spec fn is_header_text_char(c: char) -> bool {
    0x20 <= c as u32 && c as u32 <= 0x7e
}

/// The string is valid plain header text.
pub open spec fn is_header_text(s: Seq<char>) -> bool {
    forall|i: int| 0 <= i < s.len() ==> is_header_text_char(#[trigger] s[i])
}

/// The character may stand inside a quoted filename: visible ASCII or
/// space, except the quote and the backslash.
pub open spec fn is_quotable_char(c: char) -> bool {
    is_header_text_char(c) && c != '"' && c != '\\'
}

/// Every character of the string may stand inside a quoted filename.
pub open spec fn is_quotable(s: Seq<char>) -> bool {
    forall|i: int| 0 <= i < s.len() ==> is_quotable_char(#[trigger] s[i])
}

/// The character may stand in an unquoted filename token: a quotable
/// character that is not a space, `;` or `,`.
pub open spec fn is_token_char(c: char) -> bool {
    is_quotable_char(c) && c != ' ' && c != ';' && c != ','
}

/// The string is a non-empty unquoted filename token.
pub open spec fn is_token(s: Seq<char>) -> bool {
    s.len() > 0 && forall|i: int| 0 <= i < s.len() ==> is_token_char(#[trigger] s[i])
}

/// The disposition type of a `Content-Disposition` header.
#[derive(Clone, Copy, Debug, PartialEq, Eq, Structural)]
pub enum DispositionType {
    /// The content can be displayed inline.
    Inline,
    /// The content should be downloaded, usually under the given filename.
    Attachment,
}

/// A parsed `Content-Disposition` header value: a disposition type and an
/// optional filename, kept as a tagged optional of the parsed form, never
/// as a nullable raw string.
#[derive(Clone, Debug, PartialEq, Eq)]
pub struct ContentDisposition {
    pub disposition: DispositionType,
    pub filename: Option<String>,
}

/// Ghost model of a [`ContentDisposition`].
pub struct DispositionModel {
    pub disposition: DispositionType,
    pub filename: Option<Seq<char>>,
}

impl View for ContentDisposition {
    type V = DispositionModel;

    open spec fn view(&self) -> DispositionModel {
        DispositionModel {
            disposition: self.disposition,
            filename: match self.filename {
                Some(f) => Some(f@),
                None => None,
            },
        }
    }
}

/// The filename, when present, can be carried inside a quoted string.
pub open spec fn disposition_wf(m: DispositionModel) -> bool {
    match m.filename {
        Some(f) => is_quotable(f),
        None => true,
    }
}

/// The textual form of a disposition type.
pub open spec fn disposition_text(t: DispositionType) -> Seq<char> {
    if t is Inline {
        "inline"@
    } else {
        "attachment"@
    }
}

/// The rendered header text of a `Content-Disposition` value.
pub open spec fn render_disp(m: DispositionModel) -> Seq<char> {
    match m.filename {
        None => disposition_text(m.disposition),
        Some(f) => disposition_text(m.disposition) + "; filename=\""@ + f + seq!['"'],
    }
}

/// `s` begins with `p`.
pub open spec fn starts_with(s: Seq<char>, p: Seq<char>) -> bool {
    s.len() >= p.len() && s.take(p.len() as int) == p
}

/// The parse of a `Content-Disposition` header text: a bare disposition
/// type, or a disposition type followed by `; filename=` and either a
/// quoted filename or an unquoted token; anything else is rejected.
pub open spec fn parse_disp(s: Seq<char>) -> Option<DispositionModel> {
    if s == "inline"@ {
        Some(DispositionModel { disposition: DispositionType::Inline, filename: None })
    } else if s == "attachment"@ {
        Some(DispositionModel { disposition: DispositionType::Attachment, filename: None })
    } else if starts_with(s, "inline; filename=\""@) && s.len() > "inline; filename=\""@.len()
        && s.last() == '"' && is_quotable(
        s.subrange("inline; filename=\""@.len() as int, s.len() - 1),
    ) {
        Some(
            DispositionModel {
                disposition: DispositionType::Inline,
                filename: Some(s.subrange("inline; filename=\""@.len() as int, s.len() - 1)),
            },
        )
    } else if starts_with(s, "attachment; filename=\""@) && s.len() > "attachment; filename=\""@.len()
        && s.last() == '"' && is_quotable(
        s.subrange("attachment; filename=\""@.len() as int, s.len() - 1),
    ) {
        Some(
            DispositionModel {
                disposition: DispositionType::Attachment,
                filename: Some(s.subrange("attachment; filename=\""@.len() as int, s.len() - 1)),
            },
        )
    } else if starts_with(s, "inline; filename="@) && is_token(
        s.subrange("inline; filename="@.len() as int, s.len() as int),
    ) {
        Some(
            DispositionModel {
                disposition: DispositionType::Inline,
                filename: Some(s.subrange("inline; filename="@.len() as int, s.len() as int)),
            },
        )
    } else if starts_with(s, "attachment; filename="@) && is_token(
        s.subrange("attachment; filename="@.len() as int, s.len() as int),
    ) {
        Some(
            DispositionModel {
                disposition: DispositionType::Attachment,
                filename: Some(s.subrange("attachment; filename="@.len() as int, s.len() as int)),
            },
        )
    } else {
        None
    }
}

/// Parsing inverts rendering: every well-formed `Content-Disposition`
/// value is reconstructed, field by field, from its rendered header text.
pub proof fn lemma_disposition_round_trip(m: DispositionModel)
    requires
        disposition_wf(m),
    ensures
        parse_disp(render_disp(m)) == Some(m),
{
    reveal_strlit("inline");
    reveal_strlit("attachment");
    reveal_strlit("; filename=\"");
    reveal_strlit("inline; filename=\"");
    reveal_strlit("attachment; filename=\"");
    let s = render_disp(m);
    match m.filename {
        None => {
            if m.disposition is Inline {
                assert(s == "inline"@);
            } else {
                assert(s != "inline"@);
                assert(s == "attachment"@);
            }
        },
        Some(f) => {
            if m.disposition is Inline {
                assert(s =~= "inline; filename=\""@ + f + seq!['"']);
                assert(s.len() == 19 + f.len());
                assert(s != "inline"@);
                assert(s != "attachment"@);
                assert(s.take(18) =~= "inline; filename=\""@);
                assert(starts_with(s, "inline; filename=\""@));
                assert(s.last() == '"');
                assert(s.subrange(18, s.len() - 1) =~= f);
            } else {
                assert(s =~= "attachment; filename=\""@ + f + seq!['"']);
                assert(s.len() == 23 + f.len());
                assert(s != "inline"@);
                assert(s != "attachment"@);
                assert(s[0] == 'a');
                assert(!starts_with(s, "inline; filename=\""@)) by {
                    assert("inline; filename=\""@[0] == 'i');
                }
                assert(s.take(22) =~= "attachment; filename=\""@);
                assert(starts_with(s, "attachment; filename=\""@));
                assert(s.last() == '"');
                assert(s.subrange(22, s.len() - 1) =~= f);
            }
        },
    }
}

/// Compares two character vectors for equality.
fn vec_eq_chars(a: &Vec<char>, b: &Vec<char>) -> (r: bool)
    ensures
        r == (a@ == b@),
{
    if a.len() != b.len() {
        return false;
    }
    let mut i: usize = 0;
    while i < a.len()
        invariant
            a@.len() == b@.len(),
            i <= a@.len(),
            forall|j: int| 0 <= j < i ==> a@[j] == b@[j],
        decreases a@.len() - i,
    {
        if a[i] != b[i] {
            return false;
        }
        i = i + 1;
    }
    proof {
        assert(a@ =~= b@);
    }
    true
}

/// Decides whether `a` begins with `b`.
fn vec_starts_with(a: &Vec<char>, b: &Vec<char>) -> (r: bool)
    ensures
        r == starts_with(a@, b@),
{
    if a.len() < b.len() {
        return false;
    }
    let mut i: usize = 0;
    while i < b.len()
        invariant
            a@.len() >= b@.len(),
            i <= b@.len(),
            forall|j: int| 0 <= j < i ==> a@[j] == b@[j],
        decreases b@.len() - i,
    {
        if a[i] != b[i] {
            proof {
                assert(a@.take(b@.len() as int)[i as int] != b@[i as int]);
            }
            return false;
        }
        i = i + 1;
    }
    proof {
        assert(a@.take(b@.len() as int) =~= b@);
    }
    true
}

/// Decides whether every character of `v` in `[from, to)` may stand
/// inside a quoted filename.
fn quotable_range(v: &Vec<char>, from: usize, to: usize) -> (r: bool)
    requires
        from <= to <= v@.len(),
    ensures
        r == is_quotable(v@.subrange(from as int, to as int)),
{
    let mut i: usize = from;
    while i < to
        invariant
            from <= i <= to <= v@.len(),
            forall|j: int| from <= j < i ==> is_quotable_char(#[trigger] v@[j]),
        decreases to - i,
    {
        let c = v[i];
        let u = c as u32;
        if !(0x20 <= u && u <= 0x7e) || c == '"' || c == '\\' {
            proof {
                assert(!is_quotable_char(v@.subrange(from as int, to as int)[i - from]));
            }
            return false;
        }
        i = i + 1;
    }
    proof {
        assert(forall|j: int| 0 <= j < to - from ==> is_quotable_char(
            #[trigger] v@.subrange(from as int, to as int)[j],
        ));
    }
    true
}

/// Decides whether the string is valid plain header text.
pub fn header_text_ok(s: &str) -> (r: bool)
    ensures
        r == is_header_text(s@),
{
    let cs = str_chars(s);
    let mut i: usize = 0;
    while i < cs.len()
        invariant
            cs@ == s@,
            i <= cs@.len(),
            forall|j: int| 0 <= j < i ==> is_header_text_char(#[trigger] s@[j]),
        decreases cs@.len() - i,
    {
        let u = cs[i] as u32;
        if !(0x20 <= u && u <= 0x7e) {
            return false;
        }
        i = i + 1;
    }
    true
}

/// Renders a `Content-Disposition` value as header text, or `None` when
/// the filename cannot be carried inside a quoted string.
pub fn render_disposition(d: &ContentDisposition) -> (r: Option<String>)
    ensures
        match r {
            Some(s) => disposition_wf(d@) && s@ == render_disp(d@),
            None => !disposition_wf(d@),
        },
{
    let base = match d.disposition {
        DispositionType::Inline => "inline",
        DispositionType::Attachment => "attachment",
    };
    match &d.filename {
        None => {
            let out = str_chars(base);
            Some(chars_to_string(out))
        },
        Some(f) => {
            let fc = str_chars(f.as_str());
            if !quotable_range(&fc, 0, fc.len()) {
                proof {
                    assert(fc@.subrange(0, fc@.len() as int) =~= f@);
                }
                return None;
            }
            proof {
                assert(fc@.subrange(0, fc@.len() as int) =~= f@);
            }
            let mut out = str_chars(base);
            let mut mid = str_chars("; filename=\"");
            out.append(&mut mid);
            let mut fcm = str_chars(f.as_str());
            out.append(&mut fcm);
            out.push('"');
            proof {
                assert(out@ =~= render_disp(d@));
            }
            Some(chars_to_string(out))
        },
    }
}

/// Parses a `Content-Disposition` header text into its structured value,
/// or `None` when it is malformed.
pub fn parse_disposition(s: &str) -> (r: Option<ContentDisposition>)
    ensures
        match r {
            Some(d) => parse_disp(s@) == Some(d@),
            None => parse_disp(s@) is None,
        },
{
    let cs = str_chars(s);
    let lit_inline = str_chars("inline");
    let lit_att = str_chars("attachment");
    let pre_inline = str_chars("inline; filename=\"");
    let pre_att = str_chars("attachment; filename=\"");
    let pre_inline_tok = str_chars("inline; filename=");
    let pre_att_tok = str_chars("attachment; filename=");
    proof {
        reveal_strlit("inline; filename=\"");
        reveal_strlit("attachment; filename=\"");
        reveal_strlit("inline; filename=");
        reveal_strlit("attachment; filename=");
    }
    if vec_eq_chars(&cs, &lit_inline) {
        return Some(ContentDisposition { disposition: DispositionType::Inline, filename: None });
    }
    if vec_eq_chars(&cs, &lit_att) {
        return Some(
            ContentDisposition { disposition: DispositionType::Attachment, filename: None },
        );
    }
    if vec_starts_with(&cs, &pre_inline) && cs.len() > pre_inline.len() && cs[cs.len() - 1] == '"' {
        if quotable_range(&cs, pre_inline.len(), cs.len() - 1) {
            let f = copy_range(&cs, pre_inline.len(), cs.len() - 1);
            return Some(
                ContentDisposition {
                    disposition: DispositionType::Inline,
                    filename: Some(chars_to_string(f)),
                },
            );
        } else {
            proof {
                assert(cs@.take("inline; filename=\""@.len() as int)[0] == cs@[0]);
                assert(s@[0] == 'i');
                assert(!starts_with(s@, "attachment; filename=\""@)) by {
                    assert("attachment; filename=\""@[0] == 'a');
                    if starts_with(s@, "attachment; filename=\""@) {
                        assert(s@.take("attachment; filename=\""@.len() as int)[0] == s@[0]);
                    }
                }
                assert(!starts_with(s@, "attachment; filename="@)) by {
                    assert("attachment; filename="@[0] == 'a');
                    if starts_with(s@, "attachment; filename="@) {
                        assert(s@.take("attachment; filename="@.len() as int)[0] == s@[0]);
                    }
                }
                assert(s@.take(18)[17] == s@[17]);
                assert(s@[17] == '"');
                assert(s@.subrange(17, s@.len() as int)[0] == s@[17]);
                assert(!is_token(s@.subrange("inline; filename="@.len() as int, s@.len() as int)));
            }
            return None;
        }
    }
    if vec_starts_with(&cs, &pre_att) && cs.len() > pre_att.len() && cs[cs.len() - 1] == '"' {
        if quotable_range(&cs, pre_att.len(), cs.len() - 1) {
            let f = copy_range(&cs, pre_att.len(), cs.len() - 1);
            return Some(
                ContentDisposition {
                    disposition: DispositionType::Attachment,
                    filename: Some(chars_to_string(f)),
                },
            );
        } else {
            proof {
                assert(cs@.take("attachment; filename=\""@.len() as int)[0] == cs@[0]);
                assert(s@[0] == 'a');
                assert(!starts_with(s@, "inline; filename="@)) by {
                    assert("inline; filename="@[0] == 'i');
                    if starts_with(s@, "inline; filename="@) {
                        assert(s@.take("inline; filename="@.len() as int)[0] == s@[0]);
                    }
                }
                assert(s@.take(22)[21] == s@[21]);
                assert(s@[21] == '"');
                assert(s@.subrange(21, s@.len() as int)[0] == s@[21]);
                assert(!is_token(
                    s@.subrange("attachment; filename="@.len() as int, s@.len() as int),
                ));
            }
            return None;
        }
    }
    if vec_starts_with(&cs, &pre_inline_tok) && cs.len() > pre_inline_tok.len() {
        if token_range(&cs, pre_inline_tok.len(), cs.len()) {
            let f = copy_range(&cs, pre_inline_tok.len(), cs.len());
            return Some(
                ContentDisposition {
                    disposition: DispositionType::Inline,
                    filename: Some(chars_to_string(f)),
                },
            );
        } else {
            proof {
                assert(cs@.take("inline; filename="@.len() as int)[0] == cs@[0]);
                assert(s@[0] == 'i');
                assert(!starts_with(s@, "attachment; filename=\""@)) by {
                    assert("attachment; filename=\""@[0] == 'a');
                    if starts_with(s@, "attachment; filename=\""@) {
                        assert(s@.take("attachment; filename=\""@.len() as int)[0] == s@[0]);
                    }
                }
                assert(!starts_with(s@, "attachment; filename="@)) by {
                    assert("attachment; filename="@[0] == 'a');
                    if starts_with(s@, "attachment; filename="@) {
                        assert(s@.take("attachment; filename="@.len() as int)[0] == s@[0]);
                    }
                }
            }
            return None;
        }
    }
    if vec_starts_with(&cs, &pre_att_tok) && cs.len() > pre_att_tok.len() {
        if token_range(&cs, pre_att_tok.len(), cs.len()) {
            let f = copy_range(&cs, pre_att_tok.len(), cs.len());
            return Some(
                ContentDisposition {
                    disposition: DispositionType::Attachment,
                    filename: Some(chars_to_string(f)),
                },
            );
        } else {
            proof {
                assert(cs@.take("attachment; filename="@.len() as int)[0] == cs@[0]);
                assert(s@[0] == 'a');
                assert(!starts_with(s@, "inline; filename=\""@)) by {
                    assert("inline; filename=\""@[0] == 'i');
                    if starts_with(s@, "inline; filename=\""@) {
                        assert(s@.take("inline; filename=\""@.len() as int)[0] == s@[0]);
                    }
                }
                assert(!starts_with(s@, "inline; filename="@)) by {
                    assert("inline; filename="@[0] == 'i');
                    if starts_with(s@, "inline; filename="@) {
                        assert(s@.take("inline; filename="@.len() as int)[0] == s@[0]);
                    }
                }
            }
            return None;
        }
    }
    None
}

/// Decides whether the characters of `v` in `[from, to)` form a
/// non-empty unquoted filename token.
fn token_range(v: &Vec<char>, from: usize, to: usize) -> (r: bool)
    requires
        from <= to <= v@.len(),
    ensures
        r == is_token(v@.subrange(from as int, to as int)),
{
    if from == to {
        return false;
    }
    let mut i: usize = from;
    while i < to
        invariant
            from <= i <= to <= v@.len(),
            forall|j: int| from <= j < i ==> is_token_char(#[trigger] v@[j]),
        decreases to - i,
    {
        let c = v[i];
        let u = c as u32;
        if !(0x20 <= u && u <= 0x7e) || c == '"' || c == '\\' || c == ' ' || c == ';' || c == ',' {
            proof {
                assert(!is_token_char(v@.subrange(from as int, to as int)[i - from]));
            }
            return false;
        }
        i = i + 1;
    }
    proof {
        assert(forall|j: int| 0 <= j < to - from ==> is_token_char(
            #[trigger] v@.subrange(from as int, to as int)[j],
        ));
    }
    true
}

/// Copies the characters of `v` in `[from, to)` into a new vector.
fn copy_range(v: &Vec<char>, from: usize, to: usize) -> (r: Vec<char>)
    requires
        from <= to <= v@.len(),
    ensures
        r@ == v@.subrange(from as int, to as int),
{
    let mut r: Vec<char> = Vec::new();
    let mut i: usize = from;
    while i < to
        invariant
            from <= i <= to <= v@.len(),
            r@ == v@.subrange(from as int, i as int),
        decreases to - i,
    {
        r.push(v[i]);
        proof {
            assert(v@.subrange(from as int, i + 1) =~= v@.subrange(from as int, i as int).push(
                v@[i as int],
            ));
        }
        i = i + 1;
    }
    r
}

} // verus!
