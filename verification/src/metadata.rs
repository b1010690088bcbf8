//! Endpoint metadata and the version resolver.
//!
//! Metadata describes one endpoint: its HTTP method, authentication
//! requirement, rate-limit flag, and an ordered version table of
//! (version tag, path template) pairs.  The resolver picks, for a
//! negotiated stable version, the qualifying stable template with the
//! greatest version, falling back to an unstable template and failing with
//! `UnsupportedVersion` when neither exists.

use vstd::prelude::*;
use crate::error::EndpointError;
use crate::error::ErrModel;
use crate::template::PathTemplate;
use crate::version::StableVersion;
use crate::version::VersionTag;
use crate::version::version_le;
use crate::version::version_lt;

verus! {

/// An HTTP request method.
#[derive(Clone, Copy, Debug, PartialEq, Eq, Structural)]
pub enum HttpMethod {
    Get,
    Post,
    Put,
    Delete,
    Patch,
    Head,
    Options,
}

/// The authentication an endpoint requires of its callers.
#[derive(Clone, Copy, Debug, PartialEq, Eq, Structural)]
pub enum AuthRequirement {
    /// No authentication.
    NoneRequired,
    /// A client access token.
    AccessToken,
    /// A server signature.
    ServerSignature,
}

/// Immutable description of one endpoint: method, authentication
/// requirement, rate-limit flag, and the ordered version table.
#[derive(Clone, Debug)]
pub struct Metadata {
    pub method: HttpMethod,
    pub rate_limited: bool,
    pub authentication: AuthRequirement,
    pub history: Vec<(VersionTag, PathTemplate)>,
}

/// At most one table entry per distinct version tag.
pub open spec fn history_wf(h: Seq<(VersionTag, PathTemplate)>) -> bool {
    forall|i: int, j: int| 0 <= i < j < h.len() ==> h[i].0 != h[j].0
}

/// The index of the stable entry with the greatest version at most `v`:
/// of equally qualifying versions, the earliest entry.
pub open spec fn best_stable_idx(h: Seq<(VersionTag, PathTemplate)>, v: StableVersion) -> Option<
    int,
>
    decreases h.len(),
{
    if h.len() == 0 {
        None
    } else {
        let prev = best_stable_idx(h.drop_last(), v);
        match h.last().0 {
            VersionTag::Stable(sv) => if version_le(sv, v) && (match prev {
                None => true,
                Some(j) => version_lt(h[j].0->Stable_0, sv),
            }) {
                Some(h.len() - 1)
            } else {
                prev
            },
            VersionTag::Unstable => prev,
        }
    }
}

/// The index of the first unstable entry, if any.
pub open spec fn first_unstable_idx(h: Seq<(VersionTag, PathTemplate)>) -> Option<int>
    decreases h.len(),
{
    if h.len() == 0 {
        None
    } else {
        match first_unstable_idx(h.drop_last()) {
            Some(j) => Some(j),
            None => if h.last().0 is Unstable {
                Some(h.len() - 1)
            } else {
                None
            },
        }
    }
}

/// The entry the resolver picks for a negotiated version: the qualifying
/// stable entry with the greatest version, else the first unstable entry,
/// else `UnsupportedVersion`.
pub open spec fn resolve_spec(h: Seq<(VersionTag, PathTemplate)>, v: StableVersion) -> Result<
    int,
    ErrModel,
> {
    match best_stable_idx(h, v) {
        Some(i) => Ok(i),
        None => match first_unstable_idx(h) {
            Some(i) => Ok(i),
            None => Err(ErrModel::UnsupportedVersion),
        },
    }
}

/// Resolves the index of the path template applicable to the negotiated
/// version, strictly preferring qualifying stable entries over the
/// unstable fallback.
pub fn resolve(meta: &Metadata, v: StableVersion) -> (r: Result<usize, EndpointError>)
    ensures
        match r {
            Ok(i) => resolve_spec(meta.history@, v) == Ok::<int, ErrModel>(i as int) && i
                < meta.history@.len(),
            Err(e) => resolve_spec(meta.history@, v) == Err::<int, ErrModel>(
                ErrModel::UnsupportedVersion,
            ) && e == EndpointError::UnsupportedVersion,
        },
{
    let h = &meta.history;
    let mut best: Option<(StableVersion, usize)> = None;
    let mut unstable: Option<usize> = None;
    let mut i: usize = 0;
    while i < h.len()
        invariant
            i <= h@.len(),
            match best {
                Some((bv, bj)) => best_stable_idx(h@.take(i as int), v) == Some(bj as int) && bj
                    < i && h@[bj as int].0 == VersionTag::Stable(bv),
                None => best_stable_idx(h@.take(i as int), v) is None,
            },
            match unstable {
                Some(j) => first_unstable_idx(h@.take(i as int)) == Some(j as int) && j < i,
                None => first_unstable_idx(h@.take(i as int)) is None,
            },
        decreases h@.len() - i,
    {
        proof {
            assert(h@.take(i + 1).drop_last() =~= h@.take(i as int));
            assert(h@.take(i + 1).last() == h@[i as int]);
        }
        match &h[i].0 {
            VersionTag::Stable(sv) => {
                if sv.le(&v) {
                    let replace = match &best {
                        Some((bv, _)) => bv.lt(sv),
                        None => true,
                    };
                    if replace {
                        best = Some((*sv, i));
                    }
                }
            },
            VersionTag::Unstable => {
                if unstable.is_none() {
                    unstable = Some(i);
                }
            },
        }
        i = i + 1;
    }
    proof {
        assert(h@.take(h@.len() as int) =~= h@);
    }
    match best {
        Some((_, j)) => Ok(j),
        None => match unstable {
            Some(j) => Ok(j),
            None => Err(EndpointError::UnsupportedVersion),
        },
    }
}

} // verus!
