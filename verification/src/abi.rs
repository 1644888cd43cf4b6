//! The versioned guest ABI: the host side of the `request` and `watch`
//! imports.
//!
//! A guest call hands the host a pointer into its own linear memory. The
//! host copies the bytes out, decodes them, mints a fresh correlation id,
//! and answers immediately: the guest never blocks on host I/O. What the
//! host must then actually do — execute a request, open a watch — comes
//! back to the embedder as a command value.

use vstd::prelude::*;

use crate::commands::{async_type_tag, AbiCommand, AsyncType};
use crate::error::AbiError;
use crate::http_data::{dec_http_request_full, HttpRequest};
use crate::memory::GuestMemory;
use crate::mux::WatchCommand;
use crate::ptr::spec_pack;
use crate::Ptr;
use crate::watch_data::{dec_watch_request_full, WatchRequest};

verus! {

/// The ABI versions this host can bind. Each version publishes its own
/// namespace string, so modules pinned to different versions may coexist
/// in one process.
pub enum AbiVersion {
    RustV1Alpha1,
}

impl AbiVersion {
    /// The versioned namespace under which this ABI's imports are bound.
    pub fn namespace(&self) -> (r: String)
        ensures
            r@ == "rust-v1alpha1"@,
    {
        proof {
            reveal_strlit("rust-v1alpha1");
        }
        "rust-v1alpha1".to_owned()
    }
}

/// The bytes of guest memory a call points at, decoded or refused: the
/// argument of every ABI host function.
///
/// Fails with `BadPointer` exactly when `[ptr, ptr + size)` leaves the
/// memory.
fn read_payload(mem: &GuestMemory, ptr: u32, size: u32) -> (r: Result<Vec<u8>, AbiError>)
    ensures
        match r {
            Ok(b) => ptr + size <= mem.data@.len() && b@ == mem.data@.subrange(
                ptr as int,
                ptr as int + size as int,
            ),
            Err(e) => e == AbiError::BadPointer && ptr + size > mem.data@.len(),
        },
{
    mem.read(ptr, size)
}

/// Host state behind the `http-proxy-abi.request` import of one
/// controller: its name, and the monotonic counter the correlation ids
/// come from.
pub struct RequestFnCtx {
    pub controller_name: String,
    pub next_request_id: u32,
}

impl RequestFnCtx {
    /// A fresh context: ids start at zero.
    pub fn new(controller_name: String) -> (r: RequestFnCtx)
        ensures
            r.controller_name@ == controller_name@,
            r.next_request_id == 0,
    {
        RequestFnCtx { controller_name, next_request_id: 0 }
    }

    /// An id this context has already handed out.
    pub open spec fn issued(self, id: u64) -> bool {
        id < self.next_request_id
    }

    /// The guest called `request(ptr, size)`. Read the serialized
    /// [`HttpRequest`] out of guest memory, mint the next correlation id,
    /// and hand back both the command the embedder must enqueue for the
    /// executor and the packed value the guest receives at once: the id
    /// in the high 32 bits, the `Future` kind tag in the low 32 bits.
    ///
    /// Traps with `BadPointer` when the range leaves guest memory, with
    /// `DecodeError` when the bytes are not a whole request, and with
    /// `IdExhausted` when the id space is spent; those are the only
    /// traps — an in-bounds, decodable payload with id space left is
    /// served — and no id is consumed on any trap.
    pub fn request_impl(&mut self, mem: &GuestMemory, ptr: u32, size: u32) -> (r: Result<
        (u64, AbiCommand),
        AbiError,
    >)
        ensures
            final(self).controller_name@ == old(self).controller_name@,
            match r {
                Ok((ret, cmd)) => {
                    &&& ptr + size <= mem.data@.len()
                    &&& dec_http_request_full(
                        mem.data@.subrange(ptr as int, ptr as int + size as int),
                    ) == Some(cmd.value@)
                    &&& cmd.controller_name@ == old(self).controller_name@
                    &&& cmd.async_request_id == old(self).next_request_id
                    &&& old(self).issued(cmd.async_request_id) == false
                    &&& final(self).issued(cmd.async_request_id)
                    &&& final(self).next_request_id == old(self).next_request_id + 1
                    &&& ret == spec_pack(
                        async_type_tag(AsyncType::Future),
                        old(self).next_request_id,
                    )
                },
                Err(e) => {
                    &&& final(self).next_request_id == old(self).next_request_id
                    &&& (e == AbiError::BadPointer || e == AbiError::DecodeError || e
                        == AbiError::IdExhausted)
                    &&& (e == AbiError::BadPointer <==> ptr + size > mem.data@.len())
                    &&& (e == AbiError::DecodeError <==> (ptr + size <= mem.data@.len()
                        && dec_http_request_full(
                        mem.data@.subrange(ptr as int, ptr as int + size as int),
                    ) is None))
                    &&& (e == AbiError::IdExhausted <==> (ptr + size <= mem.data@.len()
                        && dec_http_request_full(
                        mem.data@.subrange(ptr as int, ptr as int + size as int),
                    ) is Some && old(self).next_request_id == u32::MAX))
                },
            },
    {
        let payload = read_payload(mem, ptr, size)?;
        let request = HttpRequest::decode(&payload)?;
        if self.next_request_id == u32::MAX {
            return Err(AbiError::IdExhausted);
        }
        let id = self.next_request_id;
        self.next_request_id = id + 1;
        let name = self.controller_name.clone();
        let cmd = AbiCommand {
            controller_name: name,
            async_request_id: id as u64,
            value: request,
        };
        let packed = crate::Ptr { ptr: async_type_tag_exec(AsyncType::Future), size: id };
        Ok((packed.pack(), cmd))
    }
}

/// The kind tag as executable code.
fn async_type_tag_exec(t: AsyncType) -> (r: u32)
    ensures
        r == async_type_tag(t),
{
    match t {
        AsyncType::Future => 1,
        AsyncType::Stream => 2,
    }
}

/// Host state behind the `kube-watch-abi.watch` import of one
/// controller: its name, and the counter its watch ids come from.
pub struct WatchFnCtx {
    pub controller_name: String,
    pub watch_counter: u64,
}

impl WatchFnCtx {
    /// A fresh context: watch ids start at zero.
    pub fn new(controller_name: String) -> (r: WatchFnCtx)
        ensures
            r.controller_name@ == controller_name@,
            r.watch_counter == 0,
    {
        WatchFnCtx { controller_name, watch_counter: 0 }
    }

    /// A watch id this context has already handed out.
    pub open spec fn issued(self, id: u64) -> bool {
        id < self.watch_counter
    }

    /// The guest called `watch(ptr, size)`. Read the serialized
    /// [`WatchRequest`] out of guest memory, mint the next watch id, and
    /// hand back the subscribe command for the multiplexer together with
    /// the id, which is also the call's return value.
    ///
    /// Traps exactly as `request_impl` does — only `BadPointer`,
    /// `DecodeError` or `IdExhausted`, each on its own condition, so an
    /// in-bounds, decodable payload with id space left is served — and
    /// no id is consumed on a trap.
    pub fn watch_impl(&mut self, mem: &GuestMemory, ptr: u32, size: u32) -> (r: Result<
        (u64, WatchCommand),
        AbiError,
    >)
        ensures
            final(self).controller_name@ == old(self).controller_name@,
            match r {
                Ok((id, cmd)) => {
                    &&& ptr + size <= mem.data@.len()
                    &&& id == old(self).watch_counter
                    &&& old(self).issued(id) == false
                    &&& final(self).issued(id)
                    &&& final(self).watch_counter == old(self).watch_counter + 1
                    &&& match cmd {
                        WatchCommand::Subscribe { controller_name, watch_id, key } => {
                            &&& controller_name@ == old(self).controller_name@
                            &&& watch_id == id
                            &&& dec_watch_request_full(
                                mem.data@.subrange(ptr as int, ptr as int + size as int),
                            ) == Some(key@)
                        },
                    }
                },
                Err(e) => {
                    &&& final(self).watch_counter == old(self).watch_counter
                    &&& (e == AbiError::BadPointer || e == AbiError::DecodeError || e
                        == AbiError::IdExhausted)
                    &&& (e == AbiError::BadPointer <==> ptr + size > mem.data@.len())
                    &&& (e == AbiError::DecodeError <==> (ptr + size <= mem.data@.len()
                        && dec_watch_request_full(
                        mem.data@.subrange(ptr as int, ptr as int + size as int),
                    ) is None))
                    &&& (e == AbiError::IdExhausted <==> (ptr + size <= mem.data@.len()
                        && dec_watch_request_full(
                        mem.data@.subrange(ptr as int, ptr as int + size as int),
                    ) is Some && old(self).watch_counter == u64::MAX))
                },
            },
    {
        let payload = read_payload(mem, ptr, size)?;
        let request = WatchRequest::decode(&payload)?;
        if self.watch_counter == u64::MAX {
            return Err(AbiError::IdExhausted);
        }
        let id = self.watch_counter;
        self.watch_counter = id + 1;
        let name = self.controller_name.clone();
        let cmd = request.into_watch_command(name, id);
        Ok((id, cmd))
    }
}

impl WatchRequest {
    /// Turn the decoded request into the multiplexer's subscribe command
    /// for this controller under this watch id.
    pub fn into_watch_command(self, controller_name: String, watch_id: u64) -> (c: WatchCommand)
        ensures
            match c {
                WatchCommand::Subscribe { controller_name: n, watch_id: w, key } => {
                    &&& n@ == controller_name@
                    &&& w == watch_id
                    &&& key@ == self@
                },
            },
    {
        WatchCommand::Subscribe { controller_name, watch_id, key: self.key }
    }
}

/// The delivery half of an ABI call: write `payload` into guest memory
/// at the offset the guest's allocator answered, and pack the pointer
/// that `on_event` receives. An allocator answer of zero means the guest
/// is out of memory: the call traps with `AllocatorReturnedZero` and no
/// byte of guest memory changes — there is never a partial write; an
/// answer without room for the payload traps with `BadPointer`, equally
/// without a write.
pub fn deliver_payload(mem: &mut GuestMemory, alloc_offset: u32, payload: &Vec<u8>) -> (r: Result<
    u64,
    AbiError,
>)
    requires
        payload@.len() <= u32::MAX,
    ensures
        match r {
            Ok(packed) => {
                &&& alloc_offset != 0
                &&& alloc_offset + payload@.len() <= old(mem).data@.len()
                &&& packed == spec_pack(alloc_offset, payload@.len() as u32)
                &&& final(mem).data@ == old(mem).data@.subrange(0, alloc_offset as int)
                    + payload@ + old(mem).data@.subrange(
                    alloc_offset as int + payload@.len() as int,
                    old(mem).data@.len() as int,
                )
                &&& final(mem).data@.subrange(
                    alloc_offset as int,
                    alloc_offset as int + payload@.len() as int,
                ) == payload@
            },
            Err(e) => {
                &&& final(mem).data@ == old(mem).data@
                &&& (e == AbiError::AllocatorReturnedZero <==> alloc_offset == 0)
                &&& (e == AbiError::BadPointer <==> (alloc_offset != 0 && alloc_offset
                    + payload@.len() > old(mem).data@.len()))
                &&& (e == AbiError::AllocatorReturnedZero || e == AbiError::BadPointer)
            },
        },
{
    let p = mem.write_back(alloc_offset, payload)?;
    Ok(p.pack())
}

} // verus!
