//! Wire-format round trips and exact encodings.

use controller_host::http_data::{HttpRequest, HttpResponse};
use controller_host::watch_data::{ListParams, Resource, WatchKey, WatchRequest};
use controller_host::Ptr;

fn sample_request() -> HttpRequest {
    HttpRequest {
        method: b"GET".to_vec(),
        uri: b"/api/v1/pods".to_vec(),
        headers: vec![
            (b"accept".to_vec(), b"application/json".to_vec()),
            (b"accept".to_vec(), b"text/plain".to_vec()),
        ],
        body: Vec::new(),
    }
}

fn sample_watch_key() -> WatchKey {
    WatchKey {
        resource: Resource {
            api_version: b"v1".to_vec(),
            group: b"".to_vec(),
            kind: b"Pod".to_vec(),
            version: b"v1".to_vec(),
            namespace: Some(b"default".to_vec()),
        },
        list_params: ListParams {
            field_selector: None,
            label_selector: Some(b"app=web".to_vec()),
            timeout: Some(290),
            allow_bookmarks: true,
            limit: None,
            continue_token: None,
        },
        resource_version: b"0".to_vec(),
    }
}

#[test]
fn http_request_round_trip() {
    let req = sample_request();
    let bytes = req.encode();
    let back = HttpRequest::decode(&bytes).expect("round trip");
    assert_eq!(back.method, req.method);
    assert_eq!(back.uri, req.uri);
    assert_eq!(back.headers, req.headers);
    assert_eq!(back.body, req.body);
}

#[test]
fn http_response_round_trip() {
    let resp = HttpResponse {
        status_code: 200,
        headers: vec![(b"content-type".to_vec(), b"application/json".to_vec())],
        body: b"{\"items\":[]}".to_vec(),
    };
    let bytes = resp.encode();
    let back = HttpResponse::decode(&bytes).expect("round trip");
    assert_eq!(back.status_code, 200);
    assert_eq!(back.headers, resp.headers);
    assert_eq!(back.body, resp.body);
}

#[test]
fn http_response_exact_bytes() {
    let resp = HttpResponse { status_code: 200, headers: Vec::new(), body: b"hi".to_vec() };
    let bytes = resp.encode();
    // status 200 little-endian, empty header list, two body bytes
    assert_eq!(bytes, vec![200u8, 0, 0, 0, 0, 0, 2, 0, 0, 0, b'h', b'i']);
}

#[test]
fn watch_request_round_trip() {
    let req = WatchRequest { key: sample_watch_key() };
    let bytes = req.encode();
    let back = WatchRequest::decode(&bytes).expect("round trip");
    assert_eq!(back.key.resource.api_version, req.key.resource.api_version);
    assert_eq!(back.key.resource.group, req.key.resource.group);
    assert_eq!(back.key.resource.kind, req.key.resource.kind);
    assert_eq!(back.key.resource.version, req.key.resource.version);
    assert_eq!(back.key.resource.namespace, req.key.resource.namespace);
    assert_eq!(back.key.list_params.field_selector, req.key.list_params.field_selector);
    assert_eq!(back.key.list_params.label_selector, req.key.list_params.label_selector);
    assert_eq!(back.key.list_params.timeout, req.key.list_params.timeout);
    assert_eq!(back.key.list_params.allow_bookmarks, req.key.list_params.allow_bookmarks);
    assert_eq!(back.key.list_params.limit, req.key.list_params.limit);
    assert_eq!(back.key.list_params.continue_token, req.key.list_params.continue_token);
    assert_eq!(back.key.resource_version, req.key.resource_version);
}

#[test]
fn truncated_payload_is_rejected() {
    let req = sample_request();
    let mut bytes = req.encode();
    bytes.pop();
    assert!(HttpRequest::decode(&bytes).is_err());
}

#[test]
fn trailing_bytes_are_rejected() {
    let req = sample_request();
    let mut bytes = req.encode();
    bytes.push(0);
    assert!(HttpRequest::decode(&bytes).is_err());
}

#[test]
fn ptr_packing_round_trip() {
    let p = Ptr { ptr: 0x1234, size: 0x5678 };
    let packed = p.pack();
    assert_eq!(packed, 0x1234u64 | (0x5678u64 << 32));
    let q = Ptr::unpack(packed);
    assert_eq!(q, p);
}

#[test]
fn watch_keys_compare_by_content() {
    let a = sample_watch_key();
    let b = sample_watch_key();
    assert!(a.key_eq(&b));
    let mut c = sample_watch_key();
    c.resource_version = b"100".to_vec();
    assert!(!a.key_eq(&c));
}
