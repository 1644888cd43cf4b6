//! Request executor logic.
//!
//! The executor consumes [`AbiCommand`]s, performs each against the
//! cluster, and answers with exactly one [`AsyncResult`] under the same
//! controller name and correlation id. The network call itself is the
//! embedder's; this module computes everything around it: the real
//! request target, and the result envelope for either outcome.

use vstd::prelude::*;

use crate::abi::RequestFnCtx;
use crate::commands::{AbiCommand, AsyncResult, AsyncType};
use crate::error::AbiError;
use crate::http_data::{dec_http_request_full, enc_http_response, HttpResponse};
use crate::memory::GuestMemory;
use crate::uri::{spec_compose, uri_accepts};

verus! {

/// The command queue between the ABI layer and the executor, together
/// with the per-controller contexts that feed it: the host's record of
/// which correlation ids are out and whose they are.
pub struct RequestQueue {
    pub ctxs: Vec<RequestFnCtx>,
    pub pending: Vec<AbiCommand>,
}

impl RequestQueue {
    /// The pending command at `k` was minted by the context of its own
    /// controller: its id is one that context has issued.
    pub open spec fn entry_ok(self, k: int) -> bool {
        exists|i: int|
            {
                &&& 0 <= i < self.ctxs@.len()
                &&& (#[trigger] self.ctxs@[i]).controller_name@ == self.pending@[
                    k
                ].controller_name@
                &&& self.ctxs@[i].issued(self.pending@[k].async_request_id)
            }
    }

    /// Every pending command satisfies [`RequestQueue::entry_ok`]: the
    /// queue holds no stray ids.
    pub open spec fn wf(self) -> bool {
        forall|k: int| 0 <= k < self.pending@.len() ==> #[trigger] self.entry_ok(k)
    }

    /// An empty queue: no contexts, nothing pending.
    pub fn new() -> (r: RequestQueue)
        ensures
            r.ctxs@.len() == 0,
            r.pending@.len() == 0,
            r.wf(),
    {
        RequestQueue { ctxs: Vec::new(), pending: Vec::new() }
    }

    /// Register one controller's request context.
    pub fn add_controller(&mut self, name: String)
        requires
            old(self).wf(),
        ensures
            final(self).wf(),
            final(self).ctxs@.len() == old(self).ctxs@.len() + 1,
            final(self).pending@ == old(self).pending@,
    {
        self.ctxs.push(RequestFnCtx::new(name));
        proof {
            assert forall|k: int| 0 <= k < self.pending@.len() implies #[trigger] self.entry_ok(
                k,
            ) by {
                assert(old(self).entry_ok(k));
                let w = choose|i: int|
                    0 <= i < old(self).ctxs@.len() && (#[trigger] old(self).ctxs@[
                        i
                    ]).controller_name@ == old(self).pending@[k].controller_name@ && old(
                        self,
                    ).ctxs@[i].issued(old(self).pending@[k].async_request_id);
                assert(self.ctxs@[w] == old(self).ctxs@[w]);
                assert(self.ctxs@[w].controller_name@ == self.pending@[k].controller_name@);
                assert(self.ctxs@[w].issued(self.pending@[k].async_request_id));
            }
        }
    }

    /// A guest's `request` call, queued: the context of controller
    /// `idx` decodes the payload and mints the id, the command joins the
    /// queue, and the guest receives the packed return value. A trap
    /// queues nothing.
    pub fn issue(&mut self, idx: usize, mem: &GuestMemory, ptr: u32, size: u32) -> (r: Result<
        u64,
        AbiError,
    >)
        requires
            old(self).wf(),
            idx < old(self).ctxs@.len(),
        ensures
            final(self).wf(),
            final(self).ctxs@.len() == old(self).ctxs@.len(),
            forall|j: int|
                0 <= j < old(self).ctxs@.len() && j != idx ==> #[trigger] final(self).ctxs@[j]
                    == old(self).ctxs@[j],
            final(self).ctxs@[idx as int].controller_name@ == old(self).ctxs@[
                idx as int
            ].controller_name@,
            match r {
                Ok(ret) => {
                    &&& ptr + size <= mem.data@.len()
                    &&& final(self).pending@.len() == old(self).pending@.len() + 1
                    &&& final(self).pending@.drop_last() == old(self).pending@
                    &&& final(self).pending@.last().controller_name@ == old(self).ctxs@[
                        idx as int
                    ].controller_name@
                    &&& final(self).pending@.last().async_request_id == old(self).ctxs@[
                        idx as int
                    ].next_request_id
                    &&& dec_http_request_full(
                        mem.data@.subrange(ptr as int, ptr as int + size as int),
                    ) == Some(final(self).pending@.last().value@)
                    &&& ret == crate::ptr::spec_pack(
                        crate::commands::async_type_tag(AsyncType::Future),
                        old(self).ctxs@[idx as int].next_request_id,
                    )
                    &&& final(self).ctxs@[idx as int].next_request_id == old(self).ctxs@[
                        idx as int
                    ].next_request_id + 1
                },
                Err(e) => {
                    &&& final(self).pending@ == old(self).pending@
                    &&& final(self).ctxs@[idx as int].next_request_id == old(self).ctxs@[
                        idx as int
                    ].next_request_id
                    &&& (e == AbiError::BadPointer || e == AbiError::DecodeError || e
                        == AbiError::IdExhausted)
                    &&& (e == AbiError::BadPointer <==> ptr + size > mem.data@.len())
                    &&& (e == AbiError::DecodeError <==> (ptr + size <= mem.data@.len()
                        && crate::http_data::dec_http_request_full(
                        mem.data@.subrange(ptr as int, ptr as int + size as int),
                    ) is None))
                    &&& (e == AbiError::IdExhausted <==> (ptr + size <= mem.data@.len()
                        && crate::http_data::dec_http_request_full(
                        mem.data@.subrange(ptr as int, ptr as int + size as int),
                    ) is Some && old(self).ctxs@[idx as int].next_request_id == u32::MAX))
                },
            },
    {
        let mut ctx = self.ctxs.remove(idx);
        let outcome = ctx.request_impl(mem, ptr, size);
        let ghost mid_ctx = ctx;
        self.ctxs.insert(idx, ctx);
        proof {
            assert(self.ctxs@ =~= old(self).ctxs@.update(idx as int, mid_ctx));
        }
        match outcome {
            Ok((ret, cmd)) => {
                let ghost cmdv = cmd;
                self.pending.push(cmd);
                proof {
                    assert(self.pending@ =~= old(self).pending@.push(cmdv));
                    assert(self.pending@.drop_last() =~= old(self).pending@);
                    assert(self.pending@.last() == cmdv);
                    assert(self.ctxs@[idx as int].issued(cmdv.async_request_id));
                    assert forall|k: int| 0 <= k < self.pending@.len()
                        implies #[trigger] self.entry_ok(k) by {
                        if k < old(self).pending@.len() {
                            assert(old(self).entry_ok(k));
                            let w = choose|i: int|
                                0 <= i < old(self).ctxs@.len() && (#[trigger] old(self).ctxs@[
                                    i
                                ]).controller_name@ == old(self).pending@[k].controller_name@
                                    && old(self).ctxs@[i].issued(
                                    old(self).pending@[k].async_request_id,
                                );
                            if w == idx {
                                assert(self.ctxs@[idx as int].controller_name@ == self.pending@[
                                    k
                                ].controller_name@);
                                assert(self.ctxs@[idx as int].issued(
                                    self.pending@[k].async_request_id,
                                ));
                            } else {
                                assert(self.ctxs@[w] == old(self).ctxs@[w]);
                                assert(self.ctxs@[w].controller_name@ == self.pending@[
                                    k
                                ].controller_name@);
                                assert(self.ctxs@[w].issued(self.pending@[k].async_request_id));
                            }
                        } else {
                            assert(self.ctxs@[idx as int].controller_name@ == self.pending@[
                                k
                            ].controller_name@);
                            assert(self.ctxs@[idx as int].issued(
                                self.pending@[k].async_request_id,
                            ));
                        }
                    }
                }
                Ok(ret)
            },
            Err(e) => {
                proof {
                    assert(self.pending@ =~= old(self).pending@);
                    assert forall|k: int| 0 <= k < self.pending@.len()
                        implies #[trigger] self.entry_ok(k) by {
                        assert(old(self).entry_ok(k));
                        let w = choose|i: int|
                            0 <= i < old(self).ctxs@.len() && (#[trigger] old(self).ctxs@[
                                i
                            ]).controller_name@ == old(self).pending@[k].controller_name@ && old(
                                self,
                            ).ctxs@[i].issued(old(self).pending@[k].async_request_id);
                        if w == idx {
                            assert(self.ctxs@[idx as int].controller_name@ == self.pending@[
                                k
                            ].controller_name@);
                            assert(self.ctxs@[idx as int].issued(
                                self.pending@[k].async_request_id,
                            ));
                        } else {
                            assert(self.ctxs@[w] == old(self).ctxs@[w]);
                            assert(self.ctxs@[w].controller_name@ == self.pending@[
                                k
                            ].controller_name@);
                            assert(self.ctxs@[w].issued(self.pending@[k].async_request_id));
                        }
                    }
                }
                Err(e)
            },
        }
    }

    /// The executor answers the oldest pending command: with the
    /// response's envelope when the transport delivered one, with the
    /// empty-payload failure envelope when it did not. Every result
    /// leaving here carries an id that the named controller's own
    /// context had produced — no stray ids — and each command is
    /// answered exactly once.
    pub fn complete_next(&mut self, response: Option<&HttpResponse>) -> (r: Option<AsyncResult>)
        requires
            old(self).wf(),
            response matches Some(resp) ==> resp@.wf(),
        ensures
            final(self).wf(),
            final(self).ctxs@ == old(self).ctxs@,
            match r {
                Some(res) => {
                    &&& old(self).pending@.len() > 0
                    &&& final(self).pending@ == old(self).pending@.drop_first()
                    &&& res.controller_name@ == old(self).pending@[0].controller_name@
                    &&& res.async_request_id == old(self).pending@[0].async_request_id
                    &&& res.async_type == AsyncType::Future
                    &&& (response matches Some(resp) ==> res@.value == Some(
                        enc_http_response(resp@),
                    ))
                    &&& (response is None ==> res.value is None)
                    &&& exists|i: int|
                        {
                            &&& 0 <= i < old(self).ctxs@.len()
                            &&& (#[trigger] old(self).ctxs@[i]).controller_name@
                                == res.controller_name@
                            &&& old(self).ctxs@[i].issued(res.async_request_id)
                        }
                },
                None => old(self).pending@.len() == 0 && final(self).pending@ == old(
                    self,
                ).pending@,
            },
    {
        if self.pending.len() == 0 {
            return None;
        }
        let cmd = self.pending.remove(0);
        proof {
            assert(self.pending@ =~= old(self).pending@.drop_first());
            assert forall|k: int| 0 <= k < self.pending@.len() implies #[trigger] self.entry_ok(
                k,
            ) by {
                assert(self.pending@[k] == old(self).pending@[k + 1]);
                assert(old(self).entry_ok(k + 1));
                let w = choose|i: int|
                    0 <= i < old(self).ctxs@.len() && (#[trigger] old(self).ctxs@[
                        i
                    ]).controller_name@ == old(self).pending@[k + 1].controller_name@ && old(
                        self,
                    ).ctxs@[i].issued(old(self).pending@[k + 1].async_request_id);
                assert(self.ctxs@[w].controller_name@ == self.pending@[k].controller_name@);
                assert(self.ctxs@[w].issued(self.pending@[k].async_request_id));
            }
            assert(old(self).entry_ok(0));
            let w0 = choose|i: int|
                0 <= i < old(self).ctxs@.len() && (#[trigger] old(self).ctxs@[
                    i
                ]).controller_name@ == old(self).pending@[0].controller_name@ && old(
                    self,
                ).ctxs@[i].issued(old(self).pending@[0].async_request_id);
            assert(old(self).ctxs@[w0].controller_name@ == old(self).pending@[
                0
            ].controller_name@);
        }
        match response {
            Some(resp) => Some(build_async_result(cmd, resp)),
            None => Some(build_async_failure(cmd)),
        }
    }
}

/// The real target of a command: the cluster base URL (trailing `/`
/// trimmed) followed by the command's path-and-query, rejected when the
/// composition is not an acceptable URI.
pub fn generate_url(cluster_url: &Vec<u8>, cmd: &AbiCommand) -> (r: Result<Vec<u8>, AbiError>)
    ensures
        match r {
            Ok(t) => t@ == spec_compose(cluster_url@, cmd.value.uri@) && uri_accepts(t@),
            Err(e) => e == AbiError::InvalidUri && !uri_accepts(
                spec_compose(cluster_url@, cmd.value.uri@),
            ),
        },
{
    crate::uri::compose_request_target(cluster_url, &cmd.value.uri)
}

/// The successful completion of a command: a `Future` result to the same
/// controller under the same id, carrying the serialized response.
pub fn build_async_result(cmd: AbiCommand, response: &HttpResponse) -> (r: AsyncResult)
    requires
        response@.wf(),
    ensures
        r@.controller_name == cmd.controller_name@,
        r@.async_request_id == cmd.async_request_id,
        r@.async_type == AsyncType::Future,
        r@.value == Some(enc_http_response(response@)),
{
    let bytes = response.encode();
    AsyncResult {
        controller_name: cmd.controller_name,
        async_request_id: cmd.async_request_id,
        async_type: AsyncType::Future,
        value: Some(bytes),
    }
}

/// The failed completion of a command: a transport error never crashes
/// the executor; the same controller receives, under the same id, a
/// `Future` result with no payload.
pub fn build_async_failure(cmd: AbiCommand) -> (r: AsyncResult)
    ensures
        r@.controller_name == cmd.controller_name@,
        r@.async_request_id == cmd.async_request_id,
        r@.async_type == AsyncType::Future,
        r@.value is None,
{
    AsyncResult {
        controller_name: cmd.controller_name,
        async_request_id: cmd.async_request_id,
        async_type: AsyncType::Future,
        value: None,
    }
}

/// Correlation is preserved end to end: a result the executor builds for
/// a command that a request context issued carries an id that context
/// had produced, for that same controller. No stray ids.
pub proof fn lemma_result_id_was_issued(
    ctx: crate::abi::RequestFnCtx,
    cmd: AbiCommand,
    r: AsyncResult,
)
    requires
        cmd.controller_name@ == ctx.controller_name@,
        ctx.issued(cmd.async_request_id),
        r.controller_name@ == cmd.controller_name@,
        r.async_request_id == cmd.async_request_id,
    ensures
        ctx.issued(r.async_request_id),
        r.controller_name@ == ctx.controller_name@,
{
}

} // verus!
