//! The host core: memory bridge, ABI calls, URI composition,
//! multiplexer fanout and desync, dispatcher routing.

use controller_host::abi::{deliver_payload, AbiVersion, RequestFnCtx, WatchFnCtx};
use controller_host::commands::{AsyncResult, AsyncType};
use controller_host::dispatcher::{Dispatcher, DispatcherInput, Registry, RouteDecision};
use controller_host::error::AbiError;
use controller_host::http::{build_async_failure, build_async_result, generate_url, RequestQueue};
use controller_host::http_data::{HttpRequest, HttpResponse};
use controller_host::memory::GuestMemory;
use controller_host::mux::{WatchCommand, Watchers, DESYNC_BACKOFF_SECONDS};
use controller_host::watch_data::{ListParams, Resource, WatchKey, WatchRequest};
use controller_host::Ptr;

fn key(resource_version: &[u8]) -> WatchKey {
    WatchKey {
        resource: Resource {
            api_version: b"v1".to_vec(),
            group: b"".to_vec(),
            kind: b"Pod".to_vec(),
            version: b"v1".to_vec(),
            namespace: None,
        },
        list_params: ListParams {
            field_selector: None,
            label_selector: None,
            timeout: None,
            allow_bookmarks: false,
            limit: None,
            continue_token: None,
        },
        resource_version: resource_version.to_vec(),
    }
}

#[test]
fn write_back_then_read_back() {
    let mut mem = GuestMemory::new(vec![0u8; 64]);
    let bytes = b"hello guest".to_vec();
    let ptr = mem.write_back(8, &bytes).expect("in bounds");
    assert_eq!(ptr, Ptr { ptr: 8, size: 11 });
    let back = mem.read(8, 11).expect("read back");
    assert_eq!(back, bytes);
}

#[test]
fn read_out_of_bounds_is_bad_pointer() {
    let mem = GuestMemory::new(vec![0u8; 16]);
    assert_eq!(mem.read(10, 7), Err(AbiError::BadPointer));
    assert_eq!(mem.read(u32::MAX, 1), Err(AbiError::BadPointer));
}

#[test]
fn allocator_zero_means_no_partial_write() {
    let mut mem = GuestMemory::new(vec![7u8; 16]);
    let r = mem.write_back(0, &b"data".to_vec());
    assert_eq!(r, Err(AbiError::AllocatorReturnedZero));
    assert_eq!(mem.data, vec![7u8; 16]);
}

#[test]
fn allocator_failure_on_large_response() {
    // a guest refusing a one-mebibyte buffer: the trap arrives and guest
    // memory stays untouched
    let mut mem = GuestMemory::new(vec![1u8; 32]);
    let big = vec![0u8; 1024 * 1024];
    assert_eq!(mem.write_back(0, &big), Err(AbiError::AllocatorReturnedZero));
    assert_eq!(mem.data, vec![1u8; 32]);
}

#[test]
fn request_call_happy_path() {
    let req = HttpRequest {
        method: b"GET".to_vec(),
        uri: b"/api/v1/pods".to_vec(),
        headers: Vec::new(),
        body: Vec::new(),
    };
    let payload = req.encode();
    let mut data = vec![0u8; 256];
    data[16..16 + payload.len()].copy_from_slice(&payload);
    let mem = GuestMemory::new(data);
    let mut ctx = RequestFnCtx::new("alpha".to_string());
    let (ret, cmd) = ctx.request_impl(&mem, 16, payload.len() as u32).expect("ok");
    // the id sits in the high half, the Future tag in the low half
    let unpacked = Ptr::unpack(ret);
    assert_eq!(unpacked.ptr, 1);
    assert_eq!(unpacked.size, 0);
    assert_eq!(cmd.controller_name, "alpha");
    assert_eq!(cmd.async_request_id, 0);
    assert_eq!(cmd.value.uri, b"/api/v1/pods".to_vec());
    // the result the executor builds answers under the same id
    let resp = HttpResponse {
        status_code: 200,
        headers: Vec::new(),
        body: b"{\"items\":[]}".to_vec(),
    };
    let encoded = resp.encode();
    let result = build_async_result(cmd, &resp);
    assert_eq!(result.controller_name, "alpha");
    assert_eq!(result.async_request_id, 0);
    assert_eq!(result.async_type, AsyncType::Future);
    assert_eq!(result.value, Some(encoded));
    // the next call mints the next id
    let (ret2, cmd2) = ctx.request_impl(&mem, 16, payload.len() as u32).expect("ok");
    assert_eq!(Ptr::unpack(ret2).size, 1);
    assert_eq!(cmd2.async_request_id, 1);
}

#[test]
fn request_call_bad_pointer_and_garbage() {
    let mem = GuestMemory::new(vec![0u8; 8]);
    let mut ctx = RequestFnCtx::new("alpha".to_string());
    assert_eq!(ctx.request_impl(&mem, 4, 100).unwrap_err(), AbiError::BadPointer);
    assert_eq!(ctx.request_impl(&mem, 0, 8).unwrap_err(), AbiError::DecodeError);
    assert_eq!(ctx.next_request_id, 0);
}

#[test]
fn request_call_id_exhaustion() {
    let req =
        HttpRequest { method: b"GET".to_vec(), uri: b"/".to_vec(), headers: Vec::new(), body: Vec::new() };
    let payload = req.encode();
    let mem = GuestMemory::new(payload.clone());
    let mut ctx = RequestFnCtx::new("alpha".to_string());
    ctx.next_request_id = u32::MAX;
    assert_eq!(
        ctx.request_impl(&mem, 0, payload.len() as u32).unwrap_err(),
        AbiError::IdExhausted
    );
}

#[test]
fn watch_call_returns_fresh_ids() {
    let req = WatchRequest { key: key(b"0") };
    let payload = req.encode();
    let mem = GuestMemory::new(payload.clone());
    let mut ctx = WatchFnCtx::new("alpha".to_string());
    let (id0, cmd0) = ctx.watch_impl(&mem, 0, payload.len() as u32).expect("ok");
    let (id1, _cmd1) = ctx.watch_impl(&mem, 0, payload.len() as u32).expect("ok");
    assert_eq!(id0, 0);
    assert_eq!(id1, 1);
    let WatchCommand::Subscribe { controller_name, watch_id, key: k } = cmd0;
    assert_eq!(controller_name, "alpha");
    assert_eq!(watch_id, 0);
    assert!(k.key_eq(&key(b"0")));
}

#[test]
fn uri_composition() {
    let cmd = |uri: &[u8]| controller_host::commands::AbiCommand {
        controller_name: "a".to_string(),
        async_request_id: 0,
        value: HttpRequest {
            method: b"GET".to_vec(),
            uri: uri.to_vec(),
            headers: Vec::new(),
            body: Vec::new(),
        },
    };
    let base = b"http://localhost:8080/".to_vec();
    let t = generate_url(&base, &cmd(b"/api/v1/pods")).expect("valid");
    assert_eq!(t, b"http://localhost:8080/api/v1/pods".to_vec());
    // repeated trailing slashes make no difference
    let base2 = b"http://localhost:8080///".to_vec();
    let t2 = generate_url(&base2, &cmd(b"/api/v1/pods")).expect("valid");
    assert_eq!(t2, t);
    // a composition that is no URI is rejected, not sent
    let bad = generate_url(&b"http://e .com".to_vec(), &cmd(b"/x y")).unwrap_err();
    assert_eq!(bad, AbiError::InvalidUri);
}

#[test]
fn watch_fanout_shares_one_upstream() {
    let mut w = Watchers::new();
    assert!(w.subscribe("a".to_string(), 7, key(b"0")));
    assert!(!w.subscribe("b".to_string(), 9, key(b"0")));
    assert_eq!(w.upstreams.len(), 1);
    for ev in [b"e1".to_vec(), b"e2".to_vec(), b"e3".to_vec()].iter() {
        let evs = w.fanout(&key(b"0"), ev);
        assert_eq!(evs.len(), 2);
        assert_eq!(evs[0].controller_name, "a");
        assert_eq!(evs[0].watch_id, 7);
        assert_eq!(evs[0].event, *ev);
        assert_eq!(evs[1].controller_name, "b");
        assert_eq!(evs[1].watch_id, 9);
        assert_eq!(evs[1].event, *ev);
    }
}

#[test]
fn distinct_keys_get_distinct_upstreams() {
    let mut w = Watchers::new();
    assert!(w.subscribe("a".to_string(), 0, key(b"100")));
    assert!(w.subscribe("b".to_string(), 0, key(b"200")));
    assert_eq!(w.upstreams.len(), 2);
    let evs = w.fanout(&key(b"100"), &b"only-a".to_vec());
    assert_eq!(evs.len(), 1);
    assert_eq!(evs[0].controller_name, "a");
}

#[test]
fn desync_resets_exactly_once() {
    let mut w = Watchers::new();
    w.subscribe("a".to_string(), 0, key(b"0"));
    // a non-410 error does not back off
    assert_eq!(w.observe_error(&key(b"0"), 500), None);
    // the 410 asks for one reset after the fixed back-off
    assert_eq!(w.observe_error(&key(b"0"), 410), Some(DESYNC_BACKOFF_SECONDS));
    assert_eq!(DESYNC_BACKOFF_SECONDS, 10);
    // while backing off, another 410 asks for nothing
    assert_eq!(w.observe_error(&key(b"0"), 410), None);
    // the reset starts over from the current state
    assert!(w.complete_reset(&key(b"0")));
    assert_eq!(w.upstreams[0].resource_version, Vec::<u8>::new());
    assert!(!w.upstreams[0].backing_off);
    // no pending back-off: nothing to reset
    assert!(!w.complete_reset(&key(b"0")));
}

#[test]
fn unsubscribed_controller_sees_no_more_events() {
    let mut w = Watchers::new();
    w.subscribe("a".to_string(), 0, key(b"0"));
    w.subscribe("b".to_string(), 1, key(b"0"));
    let closed = w.remove_controller(&"a".to_string());
    assert!(closed.is_empty());
    let evs = w.fanout(&key(b"0"), &b"late".to_vec());
    assert_eq!(evs.len(), 1);
    assert_eq!(evs[0].controller_name, "b");
    // the last subscriber going closes the upstream
    let closed = w.remove_controller(&"b".to_string());
    assert_eq!(closed.len(), 1);
    assert!(closed[0].key_eq(&key(b"0")));
    assert!(w.upstreams.is_empty());
}

#[test]
fn dispatcher_delivers_in_order() {
    let mut reg = Registry::new();
    reg.register("a".to_string());
    reg.register("b".to_string());
    let d = Dispatcher::new(reg);
    let inputs = vec![
        DispatcherInput::Result(AsyncResult {
            controller_name: "a".to_string(),
            async_request_id: 0,
            async_type: AsyncType::Future,
            value: Some(b"one".to_vec()),
        }),
        DispatcherInput::Result(AsyncResult {
            controller_name: "b".to_string(),
            async_request_id: 0,
            async_type: AsyncType::Future,
            value: Some(b"two".to_vec()),
        }),
        DispatcherInput::Result(AsyncResult {
            controller_name: "a".to_string(),
            async_request_id: 1,
            async_type: AsyncType::Future,
            value: None,
        }),
    ];
    let ds = d.dispatch_all(inputs).expect("all known");
    assert_eq!(ds.len(), 3);
    assert_eq!(ds[0].controller_name, "a");
    assert_eq!(ds[0].event_id, 0);
    assert_eq!(ds[0].payload, b"one".to_vec());
    assert_eq!(ds[1].controller_name, "b");
    // a failed transport delivers an empty payload under its id
    assert_eq!(ds[2].controller_name, "a");
    assert_eq!(ds[2].event_id, 1);
    assert!(ds[2].payload.is_empty());
}

#[test]
fn torn_down_controller_result_is_dropped() {
    let mut reg = Registry::new();
    reg.register("a".to_string());
    assert!(reg.remove(&"a".to_string()));
    let d = Dispatcher::new(reg);
    let late = DispatcherInput::Result(AsyncResult {
        controller_name: "a".to_string(),
        async_request_id: 3,
        async_type: AsyncType::Future,
        value: Some(b"late".to_vec()),
    });
    match d.route(late) {
        RouteDecision::DropSilently => {},
        _ => panic!("late result for a torn-down controller must vanish"),
    }
}

#[test]
fn unknown_controller_is_fatal() {
    let d = Dispatcher::new(Registry::new());
    let stray = DispatcherInput::Result(AsyncResult {
        controller_name: "ghost".to_string(),
        async_request_id: 0,
        async_type: AsyncType::Future,
        value: None,
    });
    match d.route(stray) {
        RouteDecision::FatalUnknownController(n) => assert_eq!(n, "ghost"),
        _ => panic!("a result for a never-registered controller is a programming error"),
    }
}

#[test]
fn failure_envelope_keeps_correlation() {
    let cmd = controller_host::commands::AbiCommand {
        controller_name: "a".to_string(),
        async_request_id: 42,
        value: HttpRequest {
            method: b"GET".to_vec(),
            uri: b"/".to_vec(),
            headers: Vec::new(),
            body: Vec::new(),
        },
    };
    let r = build_async_failure(cmd);
    assert_eq!(r.controller_name, "a");
    assert_eq!(r.async_request_id, 42);
    assert_eq!(r.value, None);
}

#[test]
fn upstream_tracks_high_water_version() {
    let mut w = Watchers::new();
    w.subscribe("a".to_string(), 0, key(b"0"));
    w.record_version(&key(b"0"), &b"41".to_vec());
    w.record_version(&key(b"0"), &b"42".to_vec());
    assert_eq!(w.upstreams[0].resource_version, b"42".to_vec());
    // a key nobody holds changes nothing
    w.record_version(&key(b"9"), &b"7".to_vec());
    assert_eq!(w.upstreams.len(), 1);
    assert_eq!(w.upstreams[0].resource_version, b"42".to_vec());
}

#[test]
fn abi_version_namespace() {
    assert_eq!(AbiVersion::RustV1Alpha1.namespace(), "rust-v1alpha1");
}

#[test]
fn request_queue_correlates_results() {
    let mut q = RequestQueue::new();
    q.add_controller("a".to_string());
    q.add_controller("b".to_string());
    let req = HttpRequest {
        method: b"GET".to_vec(),
        uri: b"/api/v1/pods".to_vec(),
        headers: Vec::new(),
        body: Vec::new(),
    };
    let payload = req.encode();
    let mem = GuestMemory::new(payload.clone());
    let ret = q.issue(0, &mem, 0, payload.len() as u32).expect("queued");
    assert_eq!(Ptr::unpack(ret).size, 0);
    q.issue(1, &mem, 0, payload.len() as u32).expect("queued");
    // the executor answers strictly in order, one result per command,
    // each under the controller and id that minted it
    let resp = HttpResponse { status_code: 200, headers: Vec::new(), body: b"ok".to_vec() };
    let r1 = q.complete_next(Some(&resp)).expect("first answer");
    assert_eq!(r1.controller_name, "a");
    assert_eq!(r1.async_request_id, 0);
    assert_eq!(r1.value, Some(resp.encode()));
    let r2 = q.complete_next(None).expect("second answer");
    assert_eq!(r2.controller_name, "b");
    assert_eq!(r2.async_request_id, 0);
    assert_eq!(r2.value, None);
    assert!(q.complete_next(Some(&resp)).is_none());
}

#[test]
fn delivery_packs_the_written_range() {
    let mut mem = GuestMemory::new(vec![0u8; 64]);
    let payload = b"event".to_vec();
    let packed = deliver_payload(&mut mem, 12, &payload).expect("in bounds");
    assert_eq!(Ptr::unpack(packed), Ptr { ptr: 12, size: 5 });
    assert_eq!(mem.read(12, 5).unwrap(), payload);
    // an allocator answer of zero traps and writes nothing
    let before = mem.data.clone();
    assert_eq!(deliver_payload(&mut mem, 0, &payload), Err(AbiError::AllocatorReturnedZero));
    assert_eq!(mem.data, before);
}
