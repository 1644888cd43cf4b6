//! Commands and results that travel between the ABI layer, the request
//! executor and the dispatcher.
//!
//! A guest call becomes an [`AbiCommand`] carrying a fresh correlation id;
//! the executor answers it with exactly one [`AsyncResult`] under the same
//! controller name and id.

use vstd::prelude::*;

use crate::http_data::{HttpRequest, HttpRequestView};

verus! {

/// How a result reaches the guest: a `Future` completes the originating
/// call through `on_event`; a `Stream` item arrives through the same
/// entry point but does not complete anything.
#[derive(Clone, Copy, Debug, PartialEq, Eq, Structural)]
pub enum AsyncType {
    Future,
    Stream,
}

/// The kind tag a packed ABI return value carries in its low 32 bits.
pub open spec fn async_type_tag(t: AsyncType) -> u32 {
    match t {
        AsyncType::Future => 1u32,
        AsyncType::Stream => 2u32,
    }
}

/// An outbound request command: which controller asked, under which
/// correlation id, and the request itself.
#[derive(Debug)]
pub struct AbiCommand {
    pub controller_name: String,
    pub async_request_id: u64,
    pub value: HttpRequest,
}

/// The mathematical image of an [`AbiCommand`].
pub struct AbiCommandView {
    pub controller_name: Seq<char>,
    pub async_request_id: u64,
    pub value: HttpRequestView,
}

impl View for AbiCommand {
    type V = AbiCommandView;

    open spec fn view(&self) -> AbiCommandView {
        AbiCommandView {
            controller_name: self.controller_name@,
            async_request_id: self.async_request_id,
            value: self.value@,
        }
    }
}

/// An asynchronous answer addressed to one controller: the correlation id
/// it minted, the kind of delivery, and the payload — `None` when the
/// transport failed.
#[derive(Debug)]
pub struct AsyncResult {
    pub controller_name: String,
    pub async_request_id: u64,
    pub async_type: AsyncType,
    pub value: Option<Vec<u8>>,
}

/// The mathematical image of an [`AsyncResult`].
pub struct AsyncResultView {
    pub controller_name: Seq<char>,
    pub async_request_id: u64,
    pub async_type: AsyncType,
    pub value: Option<Seq<u8>>,
}

impl View for AsyncResult {
    type V = AsyncResultView;

    open spec fn view(&self) -> AsyncResultView {
        AsyncResultView {
            controller_name: self.controller_name@,
            async_request_id: self.async_request_id,
            async_type: self.async_type,
            value: match self.value {
                Option::Some(ref b) => Option::Some(b@),
                Option::None => Option::None,
            },
        }
    }
}

} // verus!
