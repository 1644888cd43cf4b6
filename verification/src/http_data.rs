//! HTTP payloads of the guest ABI.
//!
//! A guest hands the host a serialized [`HttpRequest`] when it calls the
//! request import, and receives a serialized [`HttpResponse`] back through
//! its `on_event` entry point. Strings travel as UTF-8 bytes; headers are
//! a list of name/value pairs that keeps order and admits repeated names.

use vstd::prelude::*;

use crate::codec::{
    dec_bytes, dec_headers, dec_u16, enc_bytes, enc_headers, enc_u16, headers_wf, hview,
    lemma_dec_bytes, lemma_dec_headers, lemma_dec_u16, read_bytes, read_headers, read_u16,
    write_bytes, write_headers, write_u16,
};
use crate::error::AbiError;

verus! {

/// An outbound HTTP request as the guest states it: the URI holds only
/// path and query, with its leading `/`; the host prepends the cluster
/// base URL before sending.
#[derive(Debug)]
pub struct HttpRequest {
    pub method: Vec<u8>,
    pub uri: Vec<u8>,
    pub headers: Vec<(Vec<u8>, Vec<u8>)>,
    pub body: Vec<u8>,
}

/// The mathematical image of an [`HttpRequest`].
pub struct HttpRequestView {
    pub method: Seq<u8>,
    pub uri: Seq<u8>,
    pub headers: Seq<(Seq<u8>, Seq<u8>)>,
    pub body: Seq<u8>,
}

impl View for HttpRequest {
    type V = HttpRequestView;

    open spec fn view(&self) -> HttpRequestView {
        HttpRequestView {
            method: self.method@,
            uri: self.uri@,
            headers: hview(self.headers@),
            body: self.body@,
        }
    }
}

/// An HTTP response as it is handed back to the guest.
#[derive(Debug)]
pub struct HttpResponse {
    pub status_code: u16,
    pub headers: Vec<(Vec<u8>, Vec<u8>)>,
    pub body: Vec<u8>,
}

/// The mathematical image of an [`HttpResponse`].
pub struct HttpResponseView {
    pub status_code: u16,
    pub headers: Seq<(Seq<u8>, Seq<u8>)>,
    pub body: Seq<u8>,
}

impl View for HttpResponse {
    type V = HttpResponseView;

    open spec fn view(&self) -> HttpResponseView {
        HttpResponseView {
            status_code: self.status_code,
            headers: hview(self.headers@),
            body: self.body@,
        }
    }
}

impl HttpRequestView {
    /// Length bounds under which the request is encodable.
    pub open spec fn wf(self) -> bool {
        &&& self.method.len() <= u32::MAX
        &&& self.uri.len() <= u32::MAX
        &&& headers_wf(self.headers)
        &&& self.body.len() <= u32::MAX
    }
}

impl HttpResponseView {
    /// Length bounds under which the response is encodable.
    pub open spec fn wf(self) -> bool {
        &&& headers_wf(self.headers)
        &&& self.body.len() <= u32::MAX
    }
}

/// The wire form of a request: method, URI, headers, body.
pub open spec fn enc_http_request(r: HttpRequestView) -> Seq<u8> {
    enc_bytes(r.method) + enc_bytes(r.uri) + enc_headers(r.headers) + enc_bytes(r.body)
}

/// The wire form of a response: status code, headers, body.
pub open spec fn enc_http_response(r: HttpResponseView) -> Seq<u8> {
    enc_u16(r.status_code) + enc_headers(r.headers) + enc_bytes(r.body)
}

/// Read a request from the front of `s`.
pub open spec fn dec_http_request(s: Seq<u8>) -> Option<(HttpRequestView, Seq<u8>)> {
    match dec_bytes(s) {
        Option::Some((method, r1)) => match dec_bytes(r1) {
            Option::Some((uri, r2)) => match dec_headers(r2) {
                Option::Some((headers, r3)) => match dec_bytes(r3) {
                    Option::Some((body, r4)) => Option::Some(
                        (HttpRequestView { method, uri, headers, body }, r4),
                    ),
                    Option::None => Option::None,
                },
                Option::None => Option::None,
            },
            Option::None => Option::None,
        },
        Option::None => Option::None,
    }
}

/// Read a response from the front of `s`.
pub open spec fn dec_http_response(s: Seq<u8>) -> Option<(HttpResponseView, Seq<u8>)> {
    match dec_u16(s) {
        Option::Some((status_code, r1)) => match dec_headers(r1) {
            Option::Some((headers, r2)) => match dec_bytes(r2) {
                Option::Some((body, r3)) => Option::Some(
                    (HttpResponseView { status_code, headers, body }, r3),
                ),
                Option::None => Option::None,
            },
            Option::None => Option::None,
        },
        Option::None => Option::None,
    }
}

/// What a whole buffer decodes to: the request, if the buffer holds one
/// and nothing after it.
pub open spec fn dec_http_request_full(s: Seq<u8>) -> Option<HttpRequestView> {
    match dec_http_request(s) {
        Option::Some((v, rest)) => if rest.len() == 0 {
            Option::Some(v)
        } else {
            Option::None
        },
        Option::None => Option::None,
    }
}

/// What a whole buffer decodes to: the response, if the buffer holds one
/// and nothing after it.
pub open spec fn dec_http_response_full(s: Seq<u8>) -> Option<HttpResponseView> {
    match dec_http_response(s) {
        Option::Some((v, rest)) => if rest.len() == 0 {
            Option::Some(v)
        } else {
            Option::None
        },
        Option::None => Option::None,
    }
}

/// Decoding an encoded request in front of any rest yields the request
/// and the untouched rest.
pub proof fn lemma_dec_http_request(v: HttpRequestView, rest: Seq<u8>)
    requires
        v.wf(),
    ensures
        dec_http_request(enc_http_request(v) + rest) == Some((v, rest)),
{
    let s4 = rest;
    let s3 = enc_bytes(v.body) + s4;
    let s2 = enc_headers(v.headers) + s3;
    let s1 = enc_bytes(v.uri) + s2;
    let s = enc_http_request(v) + rest;
    assert(s =~= enc_bytes(v.method) + s1);
    lemma_dec_bytes(v.method, s1);
    lemma_dec_bytes(v.uri, s2);
    lemma_dec_headers(v.headers, s3);
    lemma_dec_bytes(v.body, s4);
    assert(dec_http_request(s) == Some(
        (
            HttpRequestView {
                method: v.method,
                uri: v.uri,
                headers: v.headers,
                body: v.body,
            },
            rest,
        ),
    ));
}

/// Encode-then-decode of a request is the identity.
pub proof fn lemma_http_request_round_trip(v: HttpRequestView)
    requires
        v.wf(),
    ensures
        dec_http_request_full(enc_http_request(v)) == Some(v),
{
    assert(enc_http_request(v) + Seq::<u8>::empty() =~= enc_http_request(v));
    lemma_dec_http_request(v, Seq::<u8>::empty());
}

/// Decoding an encoded response in front of any rest yields the response
/// and the untouched rest.
pub proof fn lemma_dec_http_response(v: HttpResponseView, rest: Seq<u8>)
    requires
        v.wf(),
    ensures
        dec_http_response(enc_http_response(v) + rest) == Some((v, rest)),
{
    let s3 = rest;
    let s2 = enc_bytes(v.body) + s3;
    let s1 = enc_headers(v.headers) + s2;
    let s = enc_http_response(v) + rest;
    assert(s =~= enc_u16(v.status_code) + s1);
    lemma_dec_u16(v.status_code, s1);
    lemma_dec_headers(v.headers, s2);
    lemma_dec_bytes(v.body, s3);
    assert(dec_http_response(s) == Some(
        (
            HttpResponseView {
                status_code: v.status_code,
                headers: v.headers,
                body: v.body,
            },
            rest,
        ),
    ));
}

/// Encode-then-decode of a response is the identity.
pub proof fn lemma_http_response_round_trip(v: HttpResponseView)
    requires
        v.wf(),
    ensures
        dec_http_response_full(enc_http_response(v)) == Some(v),
{
    assert(enc_http_response(v) + Seq::<u8>::empty() =~= enc_http_response(v));
    lemma_dec_http_response(v, Seq::<u8>::empty());
}

impl HttpRequest {
    /// Serialize the request into its wire form.
    pub fn encode(&self) -> (r: Vec<u8>)
        requires
            self@.wf(),
        ensures
            r@ == enc_http_request(self@),
    {
        let mut out: Vec<u8> = Vec::new();
        write_bytes(&mut out, &self.method);
        write_bytes(&mut out, &self.uri);
        write_headers(&mut out, &self.headers);
        write_bytes(&mut out, &self.body);
        proof {
            assert(out@ =~= enc_http_request(self@));
        }
        out
    }

    /// Parse a whole buffer as a request; trailing bytes are malformed.
    pub fn decode(buf: &Vec<u8>) -> (r: Result<HttpRequest, AbiError>)
        ensures
            match r {
                Ok(v) => dec_http_request_full(buf@) == Some(v@),
                Err(e) => e == AbiError::DecodeError && dec_http_request_full(buf@) is None,
            },
    {
        let (method, p1) = match read_bytes(buf, 0) {
            Some(v) => v,
            None => {
                proof {
                    assert(buf@.skip(0) =~= buf@);
                }
                return Err(AbiError::DecodeError);
            },
        };
        let (uri, p2) = match read_bytes(buf, p1) {
            Some(v) => v,
            None => {
                proof {
                    assert(buf@.skip(0) =~= buf@);
                }
                return Err(AbiError::DecodeError);
            },
        };
        let (headers, p3) = match read_headers(buf, p2) {
            Some(v) => v,
            None => {
                proof {
                    assert(buf@.skip(0) =~= buf@);
                }
                return Err(AbiError::DecodeError);
            },
        };
        let (body, p4) = match read_bytes(buf, p3) {
            Some(v) => v,
            None => {
                proof {
                    assert(buf@.skip(0) =~= buf@);
                }
                return Err(AbiError::DecodeError);
            },
        };
        proof {
            assert(buf@.skip(0) =~= buf@);
        }
        if p4 != buf.len() {
            proof {
                assert(buf@.skip(p4 as int).len() != 0);
            }
            return Err(AbiError::DecodeError);
        }
        proof {
            assert(buf@.skip(p4 as int).len() == 0);
        }
        Ok(HttpRequest { method, uri, headers, body })
    }
}

impl HttpResponse {
    /// Serialize the response into its wire form.
    pub fn encode(&self) -> (r: Vec<u8>)
        requires
            self@.wf(),
        ensures
            r@ == enc_http_response(self@),
    {
        let mut out: Vec<u8> = Vec::new();
        write_u16(&mut out, self.status_code);
        write_headers(&mut out, &self.headers);
        write_bytes(&mut out, &self.body);
        proof {
            assert(out@ =~= enc_http_response(self@));
        }
        out
    }

    /// Parse a whole buffer as a response; trailing bytes are malformed.
    pub fn decode(buf: &Vec<u8>) -> (r: Result<HttpResponse, AbiError>)
        ensures
            match r {
                Ok(v) => dec_http_response_full(buf@) == Some(v@),
                Err(e) => e == AbiError::DecodeError && dec_http_response_full(buf@) is None,
            },
    {
        let (status_code, p1) = match read_u16(buf, 0) {
            Some(v) => v,
            None => {
                proof {
                    assert(buf@.skip(0) =~= buf@);
                }
                return Err(AbiError::DecodeError);
            },
        };
        let (headers, p2) = match read_headers(buf, p1) {
            Some(v) => v,
            None => {
                proof {
                    assert(buf@.skip(0) =~= buf@);
                }
                return Err(AbiError::DecodeError);
            },
        };
        let (body, p3) = match read_bytes(buf, p2) {
            Some(v) => v,
            None => {
                proof {
                    assert(buf@.skip(0) =~= buf@);
                }
                return Err(AbiError::DecodeError);
            },
        };
        proof {
            assert(buf@.skip(0) =~= buf@);
        }
        if p3 != buf.len() {
            proof {
                assert(buf@.skip(p3 as int).len() != 0);
            }
            return Err(AbiError::DecodeError);
        }
        proof {
            assert(buf@.skip(p3 as int).len() == 0);
        }
        Ok(HttpResponse { status_code, headers, body })
    }
}

} // verus!
