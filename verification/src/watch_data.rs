//! Watch payloads of the guest ABI.
//!
//! A guest subscribes to cluster events by handing the host a serialized
//! [`WatchRequest`]: which resource to watch, the list parameters, and the
//! resource version to start from. Those three together form the
//! [`WatchKey`] that the multiplexer coalesces subscriptions by: two
//! subscriptions are equivalent exactly when their keys are equal.

use vstd::prelude::*;

use crate::codec::{
    dec_bool, dec_bytes, dec_opt_bytes, dec_opt_u32, enc_bool, enc_bytes, enc_opt_bytes,
    enc_opt_u32, lemma_dec_bool, lemma_dec_bytes, lemma_dec_opt_bytes, lemma_dec_opt_u32,
    read_bool, read_bytes, read_opt_bytes, read_opt_u32, write_bool, write_bytes,
    write_opt_bytes, write_opt_u32,
};
use crate::error::AbiError;

verus! {

/// The spec-level image of an optional byte string.
pub open spec fn oview(o: Option<Vec<u8>>) -> Option<Seq<u8>> {
    match o {
        Option::Some(b) => Option::Some(b@),
        Option::None => Option::None,
    }
}

/// A Kubernetes resource descriptor, as plain UTF-8 bytes.
#[derive(Debug)]
pub struct Resource {
    pub api_version: Vec<u8>,
    pub group: Vec<u8>,
    pub kind: Vec<u8>,
    pub version: Vec<u8>,
    pub namespace: Option<Vec<u8>>,
}

/// The mathematical image of a [`Resource`].
pub struct ResourceView {
    pub api_version: Seq<u8>,
    pub group: Seq<u8>,
    pub kind: Seq<u8>,
    pub version: Seq<u8>,
    pub namespace: Option<Seq<u8>>,
}

impl View for Resource {
    type V = ResourceView;

    open spec fn view(&self) -> ResourceView {
        ResourceView {
            api_version: self.api_version@,
            group: self.group@,
            kind: self.kind@,
            version: self.version@,
            namespace: oview(self.namespace),
        }
    }
}

/// Parameters of a list/watch call.
#[derive(Debug)]
pub struct ListParams {
    pub field_selector: Option<Vec<u8>>,
    pub label_selector: Option<Vec<u8>>,
    pub timeout: Option<u32>,
    pub allow_bookmarks: bool,
    pub limit: Option<u32>,
    pub continue_token: Option<Vec<u8>>,
}

/// The mathematical image of a [`ListParams`].
pub struct ListParamsView {
    pub field_selector: Option<Seq<u8>>,
    pub label_selector: Option<Seq<u8>>,
    pub timeout: Option<u32>,
    pub allow_bookmarks: bool,
    pub limit: Option<u32>,
    pub continue_token: Option<Seq<u8>>,
}

impl View for ListParams {
    type V = ListParamsView;

    open spec fn view(&self) -> ListParamsView {
        ListParamsView {
            field_selector: oview(self.field_selector),
            label_selector: oview(self.label_selector),
            timeout: self.timeout,
            allow_bookmarks: self.allow_bookmarks,
            limit: self.limit,
            continue_token: oview(self.continue_token),
        }
    }
}

/// What identifies an upstream watch: the resource, the list parameters
/// and the starting resource version. Subscriptions with equal keys share
/// one upstream connection; a different starting version is a different
/// key.
#[derive(Debug)]
pub struct WatchKey {
    pub resource: Resource,
    pub list_params: ListParams,
    pub resource_version: Vec<u8>,
}

/// The mathematical image of a [`WatchKey`].
pub struct WatchKeyView {
    pub resource: ResourceView,
    pub list_params: ListParamsView,
    pub resource_version: Seq<u8>,
}

impl View for WatchKey {
    type V = WatchKeyView;

    open spec fn view(&self) -> WatchKeyView {
        WatchKeyView {
            resource: self.resource@,
            list_params: self.list_params@,
            resource_version: self.resource_version@,
        }
    }
}

/// The payload of a guest watch call; its content is exactly a
/// [`WatchKey`].
#[derive(Debug)]
pub struct WatchRequest {
    pub key: WatchKey,
}

impl View for WatchRequest {
    type V = WatchKeyView;

    open spec fn view(&self) -> WatchKeyView {
        self.key@
    }
}

impl ResourceView {
    /// Length bounds under which the descriptor is encodable.
    pub open spec fn wf(self) -> bool {
        &&& self.api_version.len() <= u32::MAX
        &&& self.group.len() <= u32::MAX
        &&& self.kind.len() <= u32::MAX
        &&& self.version.len() <= u32::MAX
        &&& (self.namespace is Some ==> self.namespace->0.len() <= u32::MAX)
    }
}

impl ListParamsView {
    /// Length bounds under which the parameters are encodable.
    pub open spec fn wf(self) -> bool {
        &&& (self.field_selector is Some ==> self.field_selector->0.len() <= u32::MAX)
        &&& (self.label_selector is Some ==> self.label_selector->0.len() <= u32::MAX)
        &&& (self.continue_token is Some ==> self.continue_token->0.len() <= u32::MAX)
    }
}

impl WatchKeyView {
    /// Length bounds under which the key is encodable.
    pub open spec fn wf(self) -> bool {
        &&& self.resource.wf()
        &&& self.list_params.wf()
        &&& self.resource_version.len() <= u32::MAX
    }
}

/// The wire form of a resource descriptor.
pub open spec fn enc_resource(r: ResourceView) -> Seq<u8> {
    enc_bytes(r.api_version) + enc_bytes(r.group) + enc_bytes(r.kind) + enc_bytes(r.version)
        + enc_opt_bytes(r.namespace)
}

/// The wire form of list parameters.
pub open spec fn enc_list_params(p: ListParamsView) -> Seq<u8> {
    enc_opt_bytes(p.field_selector) + enc_opt_bytes(p.label_selector) + enc_opt_u32(p.timeout)
        + enc_bool(p.allow_bookmarks) + enc_opt_u32(p.limit) + enc_opt_bytes(p.continue_token)
}

/// The wire form of a watch request: resource, parameters, then the
/// starting resource version.
pub open spec fn enc_watch_request(w: WatchKeyView) -> Seq<u8> {
    enc_resource(w.resource) + enc_list_params(w.list_params) + enc_bytes(w.resource_version)
}

/// Read a resource descriptor from the front of `s`.
pub open spec fn dec_resource(s: Seq<u8>) -> Option<(ResourceView, Seq<u8>)> {
    match dec_bytes(s) {
        Option::Some((api_version, r1)) => match dec_bytes(r1) {
            Option::Some((group, r2)) => match dec_bytes(r2) {
                Option::Some((kind, r3)) => match dec_bytes(r3) {
                    Option::Some((version, r4)) => match dec_opt_bytes(r4) {
                        Option::Some((namespace, r5)) => Option::Some(
                            (ResourceView { api_version, group, kind, version, namespace }, r5),
                        ),
                        Option::None => Option::None,
                    },
                    Option::None => Option::None,
                },
                Option::None => Option::None,
            },
            Option::None => Option::None,
        },
        Option::None => Option::None,
    }
}

/// Read list parameters from the front of `s`.
pub open spec fn dec_list_params(s: Seq<u8>) -> Option<(ListParamsView, Seq<u8>)> {
    match dec_opt_bytes(s) {
        Option::Some((field_selector, r1)) => match dec_opt_bytes(r1) {
            Option::Some((label_selector, r2)) => match dec_opt_u32(r2) {
                Option::Some((timeout, r3)) => match dec_bool(r3) {
                    Option::Some((allow_bookmarks, r4)) => match dec_opt_u32(r4) {
                        Option::Some((limit, r5)) => match dec_opt_bytes(r5) {
                            Option::Some((continue_token, r6)) => Option::Some(
                                (
                                    ListParamsView {
                                        field_selector,
                                        label_selector,
                                        timeout,
                                        allow_bookmarks,
                                        limit,
                                        continue_token,
                                    },
                                    r6,
                                ),
                            ),
                            Option::None => Option::None,
                        },
                        Option::None => Option::None,
                    },
                    Option::None => Option::None,
                },
                Option::None => Option::None,
            },
            Option::None => Option::None,
        },
        Option::None => Option::None,
    }
}

/// Read a watch request from the front of `s`.
pub open spec fn dec_watch_request(s: Seq<u8>) -> Option<(WatchKeyView, Seq<u8>)> {
    match dec_resource(s) {
        Option::Some((resource, r1)) => match dec_list_params(r1) {
            Option::Some((list_params, r2)) => match dec_bytes(r2) {
                Option::Some((resource_version, r3)) => Option::Some(
                    (WatchKeyView { resource, list_params, resource_version }, r3),
                ),
                Option::None => Option::None,
            },
            Option::None => Option::None,
        },
        Option::None => Option::None,
    }
}

/// What a whole buffer decodes to: the watch request, if the buffer holds
/// one and nothing after it.
pub open spec fn dec_watch_request_full(s: Seq<u8>) -> Option<WatchKeyView> {
    match dec_watch_request(s) {
        Option::Some((v, rest)) => if rest.len() == 0 {
            Option::Some(v)
        } else {
            Option::None
        },
        Option::None => Option::None,
    }
}

/// Decoding an encoded resource in front of any rest yields the resource
/// and the untouched rest.
pub proof fn lemma_dec_resource(v: ResourceView, rest: Seq<u8>)
    requires
        v.wf(),
    ensures
        dec_resource(enc_resource(v) + rest) == Some((v, rest)),
{
    let s5 = rest;
    let s4 = enc_opt_bytes(v.namespace) + s5;
    let s3 = enc_bytes(v.version) + s4;
    let s2 = enc_bytes(v.kind) + s3;
    let s1 = enc_bytes(v.group) + s2;
    let s = enc_resource(v) + rest;
    assert(s =~= enc_bytes(v.api_version) + s1);
    lemma_dec_bytes(v.api_version, s1);
    lemma_dec_bytes(v.group, s2);
    lemma_dec_bytes(v.kind, s3);
    lemma_dec_bytes(v.version, s4);
    lemma_dec_opt_bytes(v.namespace, s5);
    assert(dec_resource(s) == Some(
        (
            ResourceView {
                api_version: v.api_version,
                group: v.group,
                kind: v.kind,
                version: v.version,
                namespace: v.namespace,
            },
            rest,
        ),
    ));
}

/// Decoding encoded list parameters in front of any rest yields them and
/// the untouched rest.
#[verifier::rlimit(50)]
pub proof fn lemma_dec_list_params(v: ListParamsView, rest: Seq<u8>)
    requires
        v.wf(),
    ensures
        dec_list_params(enc_list_params(v) + rest) == Some((v, rest)),
{
    let s6 = rest;
    let s5 = enc_opt_bytes(v.continue_token) + s6;
    let s4 = enc_opt_u32(v.limit) + s5;
    let s3 = enc_bool(v.allow_bookmarks) + s4;
    let s2 = enc_opt_u32(v.timeout) + s3;
    let s1 = enc_opt_bytes(v.label_selector) + s2;
    let s = enc_list_params(v) + rest;
    assert(s =~= enc_opt_bytes(v.field_selector) + s1);
    lemma_dec_opt_bytes(v.field_selector, s1);
    lemma_dec_opt_bytes(v.label_selector, s2);
    lemma_dec_opt_u32(v.timeout, s3);
    lemma_dec_bool(v.allow_bookmarks, s4);
    lemma_dec_opt_u32(v.limit, s5);
    lemma_dec_opt_bytes(v.continue_token, s6);
    assert(dec_list_params(s) == Some(
        (
            ListParamsView {
                field_selector: v.field_selector,
                label_selector: v.label_selector,
                timeout: v.timeout,
                allow_bookmarks: v.allow_bookmarks,
                limit: v.limit,
                continue_token: v.continue_token,
            },
            rest,
        ),
    ));
}

/// Decoding an encoded watch request in front of any rest yields it and
/// the untouched rest.
pub proof fn lemma_dec_watch_request(v: WatchKeyView, rest: Seq<u8>)
    requires
        v.wf(),
    ensures
        dec_watch_request(enc_watch_request(v) + rest) == Some((v, rest)),
{
    let s3 = rest;
    let s2 = enc_bytes(v.resource_version) + s3;
    let s1 = enc_list_params(v.list_params) + s2;
    let s = enc_watch_request(v) + rest;
    assert(s =~= enc_resource(v.resource) + s1);
    lemma_dec_resource(v.resource, s1);
    lemma_dec_list_params(v.list_params, s2);
    lemma_dec_bytes(v.resource_version, s3);
    assert(dec_watch_request(s) == Some(
        (
            WatchKeyView {
                resource: v.resource,
                list_params: v.list_params,
                resource_version: v.resource_version,
            },
            rest,
        ),
    ));
}

/// Encode-then-decode of a watch request is the identity.
pub proof fn lemma_watch_request_round_trip(v: WatchKeyView)
    requires
        v.wf(),
    ensures
        dec_watch_request_full(enc_watch_request(v)) == Some(v),
{
    assert(enc_watch_request(v) + Seq::<u8>::empty() =~= enc_watch_request(v));
    lemma_dec_watch_request(v, Seq::<u8>::empty());
}

impl WatchRequest {
    /// Serialize the request into its wire form.
    #[verifier::rlimit(50)]
    pub fn encode(&self) -> (r: Vec<u8>)
        requires
            self@.wf(),
        ensures
            r@ == enc_watch_request(self@),
    {
        let mut out: Vec<u8> = Vec::new();
        write_bytes(&mut out, &self.key.resource.api_version);
        write_bytes(&mut out, &self.key.resource.group);
        write_bytes(&mut out, &self.key.resource.kind);
        write_bytes(&mut out, &self.key.resource.version);
        write_opt_bytes(&mut out, &self.key.resource.namespace);
        write_opt_bytes(&mut out, &self.key.list_params.field_selector);
        write_opt_bytes(&mut out, &self.key.list_params.label_selector);
        write_opt_u32(&mut out, &self.key.list_params.timeout);
        write_bool(&mut out, self.key.list_params.allow_bookmarks);
        write_opt_u32(&mut out, &self.key.list_params.limit);
        write_opt_bytes(&mut out, &self.key.list_params.continue_token);
        write_bytes(&mut out, &self.key.resource_version);
        proof {
            assert(out@ =~= enc_watch_request(self@));
        }
        out
    }

    /// Parse a whole buffer as a watch request; trailing bytes are
    /// malformed.
    pub fn decode(buf: &Vec<u8>) -> (r: Result<WatchRequest, AbiError>)
        ensures
            match r {
                Ok(v) => dec_watch_request_full(buf@) == Some(v@),
                Err(e) => e == AbiError::DecodeError && dec_watch_request_full(buf@) is None,
            },
    {
        proof {
            assert(buf@.skip(0) =~= buf@);
        }
        let (resource, p1) = match read_resource(buf, 0) {
            Some(v) => v,
            None => {
                return Err(AbiError::DecodeError);
            },
        };
        let (list_params, p2) = match read_list_params(buf, p1) {
            Some(v) => v,
            None => {
                return Err(AbiError::DecodeError);
            },
        };
        let (resource_version, p3) = match read_bytes(buf, p2) {
            Some(v) => v,
            None => {
                return Err(AbiError::DecodeError);
            },
        };
        if p3 != buf.len() {
            proof {
                assert(buf@.skip(p3 as int).len() != 0);
            }
            return Err(AbiError::DecodeError);
        }
        proof {
            assert(buf@.skip(p3 as int).len() == 0);
        }
        Ok(WatchRequest { key: WatchKey { resource, list_params, resource_version } })
    }
}

/// Read a resource descriptor out of `buf` starting at `pos`.
fn read_resource(buf: &Vec<u8>, pos: usize) -> (r: Option<(Resource, usize)>)
    requires
        pos <= buf@.len(),
    ensures
        match r {
            Some((v, p2)) => pos <= p2 <= buf@.len() && dec_resource(buf@.skip(pos as int))
                == Some((v@, buf@.skip(p2 as int))),
            None => dec_resource(buf@.skip(pos as int)) is None,
        },
{
    let (api_version, p1) = match read_bytes(buf, pos) {
        Some(v) => v,
        None => {
            return None;
        },
    };
    let (group, p2) = match read_bytes(buf, p1) {
        Some(v) => v,
        None => {
            return None;
        },
    };
    let (kind, p3) = match read_bytes(buf, p2) {
        Some(v) => v,
        None => {
            return None;
        },
    };
    let (version, p4) = match read_bytes(buf, p3) {
        Some(v) => v,
        None => {
            return None;
        },
    };
    let (namespace, p5) = match read_opt_bytes(buf, p4) {
        Some(v) => v,
        None => {
            return None;
        },
    };
    Some((Resource { api_version, group, kind, version, namespace }, p5))
}

/// Read list parameters out of `buf` starting at `pos`.
#[verifier::rlimit(30)]
fn read_list_params(buf: &Vec<u8>, pos: usize) -> (r: Option<(ListParams, usize)>)
    requires
        pos <= buf@.len(),
    ensures
        match r {
            Some((v, p2)) => pos <= p2 <= buf@.len() && dec_list_params(buf@.skip(pos as int))
                == Some((v@, buf@.skip(p2 as int))),
            None => dec_list_params(buf@.skip(pos as int)) is None,
        },
{
    let (field_selector, p1) = match read_opt_bytes(buf, pos) {
        Some(v) => v,
        None => {
            return None;
        },
    };
    let (label_selector, p2) = match read_opt_bytes(buf, p1) {
        Some(v) => v,
        None => {
            return None;
        },
    };
    let (timeout, p3) = match read_opt_u32(buf, p2) {
        Some(v) => v,
        None => {
            return None;
        },
    };
    let (allow_bookmarks, p4) = match read_bool(buf, p3) {
        Some(v) => v,
        None => {
            return None;
        },
    };
    let (limit, p5) = match read_opt_u32(buf, p4) {
        Some(v) => v,
        None => {
            return None;
        },
    };
    let (continue_token, p6) = match read_opt_bytes(buf, p5) {
        Some(v) => v,
        None => {
            return None;
        },
    };
    Some(
        (
            ListParams {
                field_selector,
                label_selector,
                timeout,
                allow_bookmarks,
                limit,
                continue_token,
            },
            p6,
        ),
    )
}

/// Byte-string equality, stated over the views.
pub fn bytes_eq(a: &Vec<u8>, b: &Vec<u8>) -> (r: bool)
    ensures
        r == (a@ == b@),
{
    if a.len() != b.len() {
        return false;
    }
    let mut i: usize = 0;
    while i < a.len()
        invariant
            i <= a@.len(),
            a@.len() == b@.len(),
            forall|j: int| 0 <= j < i ==> a@[j] == b@[j],
        decreases a@.len() - i,
    {
        if a[i] != b[i] {
            return false;
        }
        i = i + 1;
    }
    proof {
        assert(a@ =~= b@);
    }
    true
}

/// Equality of optional byte strings, stated over the views.
pub fn opt_bytes_eq(a: &Option<Vec<u8>>, b: &Option<Vec<u8>>) -> (r: bool)
    ensures
        r == (oview(*a) == oview(*b)),
{
    match (a, b) {
        (None, None) => true,
        (Some(x), Some(y)) => bytes_eq(x, y),
        _ => false,
    }
}

/// Equality of optional `u32`s.
pub fn opt_u32_eq(a: &Option<u32>, b: &Option<u32>) -> (r: bool)
    ensures
        r == (*a == *b),
{
    match (a, b) {
        (None, None) => true,
        (Some(x), Some(y)) => *x == *y,
        _ => false,
    }
}

impl Resource {
    /// Descriptor equality, stated over the views.
    pub fn key_eq(&self, other: &Resource) -> (r: bool)
        ensures
            r == (self@ == other@),
    {
        bytes_eq(&self.api_version, &other.api_version) && bytes_eq(&self.group, &other.group)
            && bytes_eq(&self.kind, &other.kind) && bytes_eq(&self.version, &other.version)
            && opt_bytes_eq(&self.namespace, &other.namespace)
    }
}

impl ListParams {
    /// Parameter equality, stated over the views.
    pub fn key_eq(&self, other: &ListParams) -> (r: bool)
        ensures
            r == (self@ == other@),
    {
        opt_bytes_eq(&self.field_selector, &other.field_selector) && opt_bytes_eq(
            &self.label_selector,
            &other.label_selector,
        ) && opt_u32_eq(&self.timeout, &other.timeout) && self.allow_bookmarks
            == other.allow_bookmarks && opt_u32_eq(&self.limit, &other.limit) && opt_bytes_eq(
            &self.continue_token,
            &other.continue_token,
        )
    }
}

impl WatchKey {
    /// Key equality: resource, parameters and starting version all equal.
    pub fn key_eq(&self, other: &WatchKey) -> (r: bool)
        ensures
            r == (self@ == other@),
    {
        self.resource.key_eq(&other.resource) && self.list_params.key_eq(&other.list_params)
            && bytes_eq(&self.resource_version, &other.resource_version)
    }
}

} // verus!
