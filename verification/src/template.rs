//! Path templates and their rendering.
//!
//! A path template is an ordered sequence of segments, each a literal or a
//! named placeholder.  Rendering substitutes the percent-encoded value of
//! the correspondingly-named path field for each placeholder and prefixes
//! every segment with `/`; it fails with `MissingPathField` when a
//! placeholder has no matching field or the matching value is empty.

use vstd::prelude::*;
use crate::chars::chars_to_string;
use crate::chars::str_chars;
use crate::error::EndpointError;
use crate::error::ErrModel;
use crate::percent::pe_str;
use crate::percent::percent_encode_chars;

verus! {

/// One segment of a path template: a literal, or a placeholder naming a
/// path field.
#[derive(Clone, Debug, PartialEq, Eq)]
pub enum Segment {
    /// A literal segment, emitted verbatim.
    Literal(String),
    /// A placeholder, replaced by the percent-encoded value of the path
    /// field with this name.
    Placeholder(String),
}

/// A path template: the ordered segments of a URI path pattern.
#[derive(Clone, Debug, PartialEq, Eq)]
pub struct PathTemplate {
    pub segments: Vec<Segment>,
}

/// The value of the first field with the given name, if any.
pub open spec fn lookup_pair(fields: Seq<(String, String)>, name: Seq<char>) -> Option<Seq<char>>
    decreases fields.len(),
{
    if fields.len() == 0 {
        None
    } else if fields[0].0@ == name {
        Some(fields[0].1@)
    } else {
        lookup_pair(fields.drop_first(), name)
    }
}

/// The rendering of one segment: a literal verbatim, a placeholder by the
/// percent-encoded matching field value, which must exist and be non-empty.
pub open spec fn render_segment(seg: Segment, fields: Seq<(String, String)>) -> Result<
    Seq<char>,
    ErrModel,
> {
    match seg {
        Segment::Literal(l) => Ok(l@),
        Segment::Placeholder(n) => match lookup_pair(fields, n@) {
            Some(v) => if v.len() > 0 {
                Ok(pe_str(v))
            } else {
                Err(ErrModel::MissingPathField(n@))
            },
            None => Err(ErrModel::MissingPathField(n@)),
        },
    }
}

/// The rendering of a whole template: each segment prefixed with `/`, in
/// order; the first failing segment's error, if any.
pub open spec fn render_spec(segs: Seq<Segment>, fields: Seq<(String, String)>) -> Result<
    Seq<char>,
    ErrModel,
>
    decreases segs.len(),
{
    if segs.len() == 0 {
        Ok(Seq::empty())
    } else {
        match render_spec(segs.drop_last(), fields) {
            Err(e) => Err(e),
            Ok(pre) => match render_segment(segs.last(), fields) {
                Err(e) => Err(e),
                Ok(s) => Ok(pre + seq!['/'] + s),
            },
        }
    }
}

/// A failure of any prefix of the template is the failure of the whole
/// rendering: later segments cannot mask an earlier error.
pub proof fn lemma_render_err(segs: Seq<Segment>, fields: Seq<(String, String)>, k: int)
    requires
        0 <= k <= segs.len(),
        render_spec(segs.take(k), fields) is Err,
    ensures
        render_spec(segs, fields) == render_spec(segs.take(k), fields),
    decreases segs.len() - k,
{
    if k < segs.len() {
        assert(segs.take(k + 1).drop_last() =~= segs.take(k));
        lemma_render_err(segs, fields, k + 1);
    } else {
        assert(segs.take(k) =~= segs);
    }
}

/// Finds the value of the first field with the given name.
fn lookup_field<'a>(fields: &'a Vec<(String, String)>, name: &String) -> (r: Option<&'a String>)
    ensures
        match r {
            Some(v) => lookup_pair(fields@, name@) == Some(v@),
            None => lookup_pair(fields@, name@) is None,
        },
{
    let mut i: usize = 0;
    proof {
        assert(fields@.skip(0) =~= fields@);
    }
    while i < fields.len()
        invariant
            i <= fields@.len(),
            lookup_pair(fields@, name@) == lookup_pair(fields@.skip(i as int), name@),
        decreases fields@.len() - i,
    {
        proof {
            assert(fields@.skip(i as int)[0] == fields@[i as int]);
            assert(fields@.skip(i as int).drop_first() =~= fields@.skip(i + 1));
        }
        if fields[i].0.eq(name) {
            return Some(&fields[i].1);
        }
        i = i + 1;
    }
    proof {
        assert(fields@.skip(fields@.len() as int) =~= Seq::<(String, String)>::empty());
    }
    None
}

/// Renders a template with the given path fields, substituting the
/// percent-encoded value of each placeholder's field.
pub fn render(template: &PathTemplate, fields: &Vec<(String, String)>) -> (r: Result<
    String,
    EndpointError,
>)
    ensures
        match r {
            Ok(p) => render_spec(template.segments@, fields@) == Ok::<Seq<char>, ErrModel>(p@),
            Err(e) => render_spec(template.segments@, fields@) == Err::<Seq<char>, ErrModel>(e@),
        },
{
    let segs = &template.segments;
    let mut out: Vec<char> = Vec::new();
    let mut i: usize = 0;
    while i < segs.len()
        invariant
            segs@ == template.segments@,
            i <= segs@.len(),
            render_spec(segs@.take(i as int), fields@) == Ok::<Seq<char>, ErrModel>(out@),
        decreases segs@.len() - i,
    {
        proof {
            assert(segs@.take(i + 1).drop_last() =~= segs@.take(i as int));
            assert(segs@.take(i + 1).last() == segs@[i as int]);
        }
        out.push('/');
        match &segs[i] {
            Segment::Literal(l) => {
                let mut cs = str_chars(l.as_str());
                out.append(&mut cs);
                proof {
                    assert(out@ =~= render_spec(segs@.take(i as int), fields@)->Ok_0
                        + seq!['/'] + render_segment(segs@[i as int], fields@)->Ok_0);
                }
            },
            Segment::Placeholder(n) => {
                match lookup_field(fields, n) {
                    Some(v) => {
                        if v.as_str().is_empty() {
                            proof {
                                assert(render_spec(segs@.take(i + 1), fields@)
                                    == Err::<Seq<char>, ErrModel>(ErrModel::MissingPathField(n@)));
                                lemma_render_err(segs@, fields@, i + 1);
                            }
                            return Err(EndpointError::MissingPathField(n.clone()));
                        }
                        let mut cs = percent_encode_chars(v.as_str());
                        out.append(&mut cs);
                        proof {
                            assert(out@ =~= render_spec(segs@.take(i as int), fields@)->Ok_0
                                + seq!['/'] + render_segment(segs@[i as int], fields@)->Ok_0);
                        }
                    },
                    None => {
                        proof {
                            assert(render_spec(segs@.take(i + 1), fields@)
                                == Err::<Seq<char>, ErrModel>(ErrModel::MissingPathField(n@)));
                            lemma_render_err(segs@, fields@, i + 1);
                        }
                        return Err(EndpointError::MissingPathField(n.clone()));
                    },
                }
            },
        }
        i = i + 1;
    }
    proof {
        assert(segs@.take(segs@.len() as int) =~= segs@);
    }
    Ok(chars_to_string(out))
}

} // verus!
