//! Request-target composition.
//!
//! Outbound guest requests carry only a path-and-query (with a leading
//! `/`); the host prepends the cluster base URL. The base comes from user
//! configuration and may end in any number of `/`, so composition trims
//! them all before appending the path. Strings travel as UTF-8 bytes here,
//! as they do on the ABI wire.

use vstd::prelude::*;

use crate::error::AbiError;

verus! {

/// `s` without its trailing `/` bytes.
pub open spec fn spec_trim_trailing_slashes(s: Seq<u8>) -> Seq<u8>
    decreases s.len(),
{
    if s.len() > 0 && s[s.len() - 1] == 47u8 {
        spec_trim_trailing_slashes(s.drop_last())
    } else {
        s
    }
}

/// The composed request target: the base with trailing `/` trimmed, then
/// the path-and-query.
pub open spec fn spec_compose(base: Seq<u8>, path: Seq<u8>) -> Seq<u8> {
    spec_trim_trailing_slashes(base) + path
}

/// Whether the `http` crate accepts these bytes as a URI. Acceptance is a
/// function of the bytes alone.
pub uninterp spec fn uri_accepts(s: Seq<u8>) -> bool;

/// Relies on `http::Uri::try_from(&[u8])`: parsing is deterministic in the
/// input bytes, and the call only reports whether they form a URI.
#[verifier::external_body]
fn uri_is_valid(bytes: &Vec<u8>) -> (r: bool)
    ensures
        r == uri_accepts(bytes@),
{
    http::Uri::try_from(bytes.as_slice()).is_ok()
}

/// Join the cluster base URL and a request path-and-query: trailing `/`
/// of the base go, the path follows unchanged.
pub fn compose_url(base: &Vec<u8>, path: &Vec<u8>) -> (r: Vec<u8>)
    ensures
        r@ == spec_compose(base@, path@),
{
    let mut cut: usize = base.len();
    proof {
        assert(base@.subrange(0, base@.len() as int) =~= base@);
    }
    while cut > 0 && base[cut - 1] == 47u8
        invariant
            cut <= base@.len(),
            spec_trim_trailing_slashes(base@) == spec_trim_trailing_slashes(
                base@.subrange(0, cut as int),
            ),
        decreases cut,
    {
        proof {
            let pre = base@.subrange(0, cut as int);
            assert(pre.drop_last() =~= base@.subrange(0, cut - 1));
        }
        cut = cut - 1;
    }
    proof {
        let pre = base@.subrange(0, cut as int);
        if cut > 0 {
            assert(spec_trim_trailing_slashes(pre) == pre);
        } else {
            assert(pre =~= Seq::<u8>::empty());
        }
    }
    let mut out: Vec<u8> = Vec::new();
    let mut i: usize = 0;
    while i < cut
        invariant
            i <= cut,
            cut <= base@.len(),
            out@ == base@.subrange(0, i as int),
        decreases cut - i,
    {
        out.push(base[i]);
        proof {
            assert(out@ =~= base@.subrange(0, i + 1 as int));
        }
        i = i + 1;
    }
    let mut j: usize = 0;
    while j < path.len()
        invariant
            j <= path@.len(),
            out@ == base@.subrange(0, cut as int) + path@.subrange(0, j as int),
        decreases path@.len() - j,
    {
        out.push(path[j]);
        proof {
            assert(out@ =~= base@.subrange(0, cut as int) + path@.subrange(0, j + 1 as int));
        }
        j = j + 1;
    }
    proof {
        assert(path@.subrange(0, path@.len() as int) =~= path@);
    }
    out
}

/// Compose the request target and hold it against the URI grammar; a base
/// or path that composes into something unparsable is rejected instead of
/// sent.
pub fn compose_request_target(base: &Vec<u8>, path: &Vec<u8>) -> (r: Result<Vec<u8>, AbiError>)
    ensures
        match r {
            Ok(t) => t@ == spec_compose(base@, path@) && uri_accepts(t@),
            Err(e) => e == AbiError::InvalidUri && !uri_accepts(spec_compose(base@, path@)),
        },
{
    let composed = compose_url(base, path);
    if uri_is_valid(&composed) {
        Ok(composed)
    } else {
        Err(AbiError::InvalidUri)
    }
}

/// Trimming already-trimmed bytes changes nothing: composition is
/// idempotent in the base's trailing slashes.
pub proof fn lemma_trim_idempotent(s: Seq<u8>)
    ensures
        spec_trim_trailing_slashes(spec_trim_trailing_slashes(s)) == spec_trim_trailing_slashes(
            s,
        ),
    decreases s.len(),
{
    if s.len() > 0 && s[s.len() - 1] == 47u8 {
        lemma_trim_idempotent(s.drop_last());
    }
}

/// A base with one more trailing `/` composes to the same target: repeated
/// trailing slashes do not pile up in the result.
pub proof fn lemma_compose_extra_slash(base: Seq<u8>, path: Seq<u8>)
    ensures
        spec_compose(base.push(47u8), path) == spec_compose(base, path),
{
    assert(base.push(47u8).drop_last() =~= base);
}

} // verus!
