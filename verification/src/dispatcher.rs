//! Async dispatcher.
//!
//! The dispatcher owns the single consumer end of the result and event
//! channels and routes every item into the guest that asked for it. It is
//! one serial loop: it finishes delivering an item — the guest's
//! `on_event` returns — before it takes the next, so `on_event` calls per
//! controller are totally ordered by arrival and never reentrant.
//!
//! A result for a controller that was torn down is dropped silently; a
//! result for a controller that never existed means an id was minted for
//! nobody, and that is fatal.

use vstd::prelude::*;

use crate::commands::{AsyncResult, AsyncResultView};
use crate::mux::{WatchEvent, WatchEventView};

verus! {

/// The controllers the dispatcher can deliver to: the live ones, and the
/// names of those that were registered once and then torn down.
#[derive(Debug)]
pub struct Registry {
    pub live: Vec<String>,
    pub retired: Vec<String>,
}

/// The names in a list, as sequences.
pub open spec fn names_of(v: Seq<String>) -> Seq<Seq<char>> {
    v.map_values(|s: String| s@)
}

impl Registry {
    /// A registry with no controllers.
    pub fn new() -> (r: Registry)
        ensures
            names_of(r.live@).len() == 0,
            names_of(r.retired@).len() == 0,
    {
        Registry { live: Vec::new(), retired: Vec::new() }
    }

    /// `n` is a live controller.
    pub open spec fn is_live(self, n: Seq<char>) -> bool {
        exists|i: int| 0 <= i < self.live@.len() && self.live@[i]@ == n
    }

    /// `n` was registered once and then torn down.
    pub open spec fn is_retired(self, n: Seq<char>) -> bool {
        exists|i: int| 0 <= i < self.retired@.len() && self.retired@[i]@ == n
    }

    /// `n` is known: live or retired.
    pub open spec fn is_known(self, n: Seq<char>) -> bool {
        self.is_live(n) || self.is_retired(n)
    }

    /// Register a controller at startup.
    pub fn register(&mut self, name: String)
        ensures
            final(self).live@ == old(self).live@.push(name),
            final(self).retired@ == old(self).retired@,
            final(self).is_live(name@),
    {
        self.live.push(name);
        proof {
            assert(self.live@[self.live@.len() - 1]@ == self.live@.last()@);
        }
    }

    /// Whether a name is live, as executable code.
    fn find_live(&self, name: &String) -> (r: bool)
        ensures
            r == self.is_live(name@),
    {
        let mut i: usize = 0;
        while i < self.live.len()
            invariant
                i <= self.live@.len(),
                forall|j: int| 0 <= j < i ==> #[trigger] self.live@[j]@ != name@,
            decreases self.live@.len() - i,
        {
            if self.live[i].eq(name) {
                return true;
            }
            i = i + 1;
        }
        false
    }

    /// Whether a name is retired, as executable code.
    fn find_retired(&self, name: &String) -> (r: bool)
        ensures
            r == self.is_retired(name@),
    {
        let mut i: usize = 0;
        while i < self.retired.len()
            invariant
                i <= self.retired@.len(),
                forall|j: int| 0 <= j < i ==> #[trigger] self.retired@[j]@ != name@,
            decreases self.retired@.len() - i,
        {
            if self.retired[i].eq(name) {
                return true;
            }
            i = i + 1;
        }
        false
    }

    /// Tear a controller down: it stops being live and is remembered as
    /// retired, so late results for it are dropped rather than treated
    /// as stray. Answers whether it was live. Other controllers'
    /// standing does not change.
    pub fn remove(&mut self, name: &String) -> (was_live: bool)
        ensures
            was_live == old(self).is_live(name@),
            !final(self).is_live(name@),
            was_live ==> final(self).is_retired(name@),
            !was_live ==> final(self).live@ == old(self).live@ && final(self).retired@ == old(
                self,
            ).retired@,
            forall|n: Seq<char>|
                n != name@ ==> (#[trigger] final(self).is_live(n) == old(self).is_live(n)),
            forall|n: Seq<char>|
                old(self).is_retired(n) ==> #[trigger] final(self).is_retired(n),
    {
        let mut was_live = false;
        loop
            invariant
                was_live ==> old(self).is_live(name@),
                old(self).is_live(name@) == (was_live || self.is_live(name@)),
                !was_live ==> self.live@ == old(self).live@ && self.retired@ == old(
                    self,
                ).retired@,
                was_live ==> self.retired@.len() == old(self).retired@.len() + 1
                    && self.retired@.last()@ == name@ && self.retired@.take(
                    old(self).retired@.len() as int,
                ) == old(self).retired@,
                forall|n: Seq<char>|
                    n != name@ ==> (#[trigger] self.is_live(n) == old(self).is_live(n)),
            ensures
                !self.is_live(name@),
            decreases self.live@.len(),
        {
            let idx = match self.find_live_index(name) {
                Some(i) => i,
                None => {
                    break;
                },
            };
            let ghost prevreg = *self;
            let s = self.live.remove(idx);
            if !was_live {
                self.retired.push(s);
                was_live = true;
                proof {
                    assert(self.retired@.take(old(self).retired@.len() as int) =~= old(
                        self,
                    ).retired@);
                }
            }
            proof {
                assert(prevreg.live@[idx as int]@ == name@);
                assert forall|n: Seq<char>|
                    n != name@ implies (#[trigger] self.is_live(n) == prevreg.is_live(n)) by {
                    if self.is_live(n) {
                        let j = choose|j: int|
                            0 <= j < self.live@.len() && self.live@[j]@ == n;
                        if j < idx {
                            assert(prevreg.live@[j]@ == n);
                        } else {
                            assert(prevreg.live@[j + 1]@ == n);
                        }
                    }
                    if prevreg.is_live(n) {
                        let j = choose|j: int|
                            0 <= j < prevreg.live@.len() && prevreg.live@[j]@ == n;
                        if j < idx {
                            assert(self.live@[j]@ == n);
                        } else if j > idx {
                            assert(self.live@[j - 1]@ == n);
                        }
                    }
                }
            }
        }
        proof {
            if was_live {
                let k = old(self).retired@.len() as int;
                assert(self.retired@[self.retired@.len() - 1]@ == name@);
            }
            assert forall|n: Seq<char>|
                old(self).is_retired(n) implies #[trigger] self.is_retired(n) by {
                let w = choose|j: int|
                    0 <= j < old(self).retired@.len() && old(self).retired@[j]@ == n;
                if was_live {
                    assert(self.retired@.take(old(self).retired@.len() as int)[w] == old(
                        self,
                    ).retired@[w]);
                    assert(self.retired@[w]@ == n);
                } else {
                    assert(self.retired@[w]@ == n);
                }
            }
        }
        was_live
    }

    /// The index of a live controller with this name, if any.
    fn find_live_index(&self, name: &String) -> (r: Option<usize>)
        ensures
            match r {
                Some(i) => i < self.live@.len() && self.live@[i as int]@ == name@,
                None => !self.is_live(name@),
            },
    {
        let mut i: usize = 0;
        while i < self.live.len()
            invariant
                i <= self.live@.len(),
                forall|j: int| 0 <= j < i ==> #[trigger] self.live@[j]@ != name@,
            decreases self.live@.len() - i,
        {
            if self.live[i].eq(name) {
                return Some(i);
            }
            i = i + 1;
        }
        None
    }
}

/// One item the dispatcher consumes: an asynchronous request result or a
/// watch event.
#[derive(Debug)]
pub enum DispatcherInput {
    Result(AsyncResult),
    Event(WatchEvent),
}

/// The mathematical image of a [`DispatcherInput`].
pub enum DispatcherInputView {
    Result(AsyncResultView),
    Event(WatchEventView),
}

impl View for DispatcherInput {
    type V = DispatcherInputView;

    open spec fn view(&self) -> DispatcherInputView {
        match self {
            DispatcherInput::Result(r) => DispatcherInputView::Result(r@),
            DispatcherInput::Event(e) => DispatcherInputView::Event(e@),
        }
    }
}

/// The controller an input is addressed to.
pub open spec fn controller_of(inp: DispatcherInputView) -> Seq<char> {
    match inp {
        DispatcherInputView::Result(r) => r.controller_name,
        DispatcherInputView::Event(e) => e.controller_name,
    }
}

/// One `on_event` call into a guest: the id it correlates by and the
/// payload bytes.
#[derive(Debug)]
pub struct Delivery {
    pub controller_name: String,
    pub event_id: u64,
    pub payload: Vec<u8>,
}

/// The mathematical image of a [`Delivery`].
pub struct DeliveryView {
    pub controller_name: Seq<char>,
    pub event_id: u64,
    pub payload: Seq<u8>,
}

impl View for Delivery {
    type V = DeliveryView;

    open spec fn view(&self) -> DeliveryView {
        DeliveryView {
            controller_name: self.controller_name@,
            event_id: self.event_id,
            payload: self.payload@,
        }
    }
}

/// The `on_event` call one input turns into: a result is delivered under
/// its request id — a failed transport delivers an empty payload — and a
/// watch event under its watch id.
pub open spec fn delivery_of(inp: DispatcherInputView) -> DeliveryView {
    match inp {
        DispatcherInputView::Result(r) => DeliveryView {
            controller_name: r.controller_name,
            event_id: r.async_request_id,
            payload: match r.value {
                Option::Some(b) => b,
                Option::None => Seq::empty(),
            },
        },
        DispatcherInputView::Event(e) => DeliveryView {
            controller_name: e.controller_name,
            event_id: e.watch_id,
            payload: e.event,
        },
    }
}



/// The views of a batch of inputs.
pub open spec fn input_views(s: Seq<DispatcherInput>) -> Seq<DispatcherInputView> {
    s.map_values(|x: DispatcherInput| x@)
}

/// The views of a batch of deliveries.
pub open spec fn delivery_views(s: Seq<Delivery>) -> Seq<DeliveryView> {
    s.map_values(|d: Delivery| d@)
}

/// What the dispatcher does with one input.
#[derive(Debug)]
pub enum RouteDecision {
    /// The controller is live: call its `on_event` with this.
    Deliver(Delivery),
    /// The controller was torn down; its late result vanishes silently.
    DropSilently,
    /// The named controller never existed: an id was minted for nobody.
    /// This is a programming error and fatal for the host.
    FatalUnknownController(String),
}

/// The dispatcher: the registry of controllers it may deliver to. The
/// delivery loop itself is the embedder's; it routes one input at a time
/// through [`Dispatcher::route`] and finishes each delivery before it
/// takes the next, which is what keeps `on_event` serial per controller.
#[derive(Debug)]
pub struct Dispatcher {
    pub registry: Registry,
}

impl Dispatcher {
    /// A dispatcher over the given registry.
    pub fn new(registry: Registry) -> (r: Dispatcher)
        ensures
            r.registry.live@ == registry.live@,
            r.registry.retired@ == registry.retired@,
    {
        Dispatcher { registry }
    }

    /// Route one input: deliver to a live controller, drop for a retired
    /// one, and report a never-registered name as fatal.
    pub fn route(&self, inp: DispatcherInput) -> (r: RouteDecision)
        ensures
            match r {
                RouteDecision::Deliver(d) => self.registry.is_live(controller_of(inp@)) && d@
                    == delivery_of(inp@),
                RouteDecision::DropSilently => !self.registry.is_live(controller_of(inp@))
                    && self.registry.is_retired(controller_of(inp@)),
                RouteDecision::FatalUnknownController(n) => !self.registry.is_known(
                    controller_of(inp@),
                ) && n@ == controller_of(inp@),
            },
    {
        let (name, event_id, payload) = match inp {
            DispatcherInput::Result(res) => {
                let payload = match res.value {
                    Some(b) => b,
                    None => Vec::new(),
                };
                (res.controller_name, res.async_request_id, payload)
            },
            DispatcherInput::Event(ev) => (ev.controller_name, ev.watch_id, ev.event),
        };
        if self.registry.find_live(&name) {
            RouteDecision::Deliver(Delivery { controller_name: name, event_id, payload })
        } else if self.registry.find_retired(&name) {
            RouteDecision::DropSilently
        } else {
            RouteDecision::FatalUnknownController(name)
        }
    }

    /// Drain a batch of inputs, strictly in order, one at a time. The
    /// deliveries come out exactly as [`spec_deliveries`] states; the
    /// first input addressed to a never-registered controller stops the
    /// host with that name.
    pub fn dispatch_all(&self, inputs: Vec<DispatcherInput>) -> (r: Result<Vec<Delivery>, String>)
        ensures
            match r {
                Ok(ds) => delivery_views(ds@) == spec_deliveries(
                    self.registry,
                    input_views(inputs@),
                ),
                Err(n) => exists|k: int|
                    0 <= k < inputs@.len() && !self.registry.is_known(
                        controller_of(#[trigger] input_views(inputs@)[k]),
                    ) && n@ == controller_of(input_views(inputs@)[k]),
            },
    {
        let ghost orig = input_views(inputs@);
        let mut queue = inputs;
        let mut out: Vec<Delivery> = Vec::new();
        let mut i: usize = 0;
        let input_count: usize = queue.len();
        while queue.len() > 0
            invariant
                i + queue@.len() == orig.len(),
                orig.len() == input_count,
                orig == input_views(inputs@),
                input_views(queue@) =~= orig.skip(i as int),
                delivery_views(out@) =~= spec_deliveries(self.registry, orig.take(i as int)),
            decreases queue@.len(),
        {
            proof {
                assert forall|k: int| 0 <= k < queue@.len() implies #[trigger] queue@[k]@
                    == orig[i + k] by {
                    assert(input_views(queue@)[k] == orig.skip(i as int)[k]);
                }
            }
            let inp = queue.remove(0);
            proof {
                assert(inp@ == orig[i as int]);
                assert forall|k: int| 0 <= k < queue@.len() implies input_views(queue@)[k]
                    == #[trigger] orig.skip(i + 1 as int)[k] by {
                    assert(queue@[k]@ == orig[i + (k + 1)]);
                }
                assert(input_views(queue@) =~= orig.skip(i + 1 as int));
                assert(orig.take(i + 1 as int).drop_last() =~= orig.take(i as int));
                assert(orig.take(i + 1 as int).last() == orig[i as int]);
            }
            match self.route(inp) {
                RouteDecision::Deliver(d) => {
                    out.push(d);
                    proof {
                        assert(delivery_views(out@) =~= spec_deliveries(
                            self.registry,
                            orig.take(i + 1 as int),
                        ));
                    }
                },
                RouteDecision::DropSilently => {
                    proof {
                        assert(delivery_views(out@) =~= spec_deliveries(
                            self.registry,
                            orig.take(i + 1 as int),
                        ));
                    }
                },
                RouteDecision::FatalUnknownController(n) => {
                    proof {
                        assert(input_views(inputs@)[i as int] == orig[i as int]);
                        assert(0 <= i < inputs@.len());
                        assert(!self.registry.is_known(
                            controller_of(input_views(inputs@)[i as int]),
                        ));
                        assert(n@ == controller_of(input_views(inputs@)[i as int]));
                    }
                    return Err(n);
                },
            }
            i = i + 1;
        }
        proof {
            assert(orig.take(orig.len() as int) =~= orig);
        }
        Ok(out)
    }
}

/// The deliveries a batch of inputs produces against a fixed registry:
/// one per input whose controller is live, in arrival order; inputs for
/// retired controllers vanish.
pub open spec fn spec_deliveries(reg: Registry, inputs: Seq<DispatcherInputView>) -> Seq<
    DeliveryView,
>
    decreases inputs.len(),
{
    if inputs.len() == 0 {
        Seq::empty()
    } else {
        let rest = spec_deliveries(reg, inputs.drop_last());
        if reg.is_live(controller_of(inputs.last())) {
            rest.push(delivery_of(inputs.last()))
        } else {
            rest
        }
    }
}

/// The inputs addressed to one controller, in order.
pub open spec fn inputs_for(c: Seq<char>, inputs: Seq<DispatcherInputView>) -> Seq<
    DispatcherInputView,
>
    decreases inputs.len(),
{
    if inputs.len() == 0 {
        Seq::empty()
    } else {
        let rest = inputs_for(c, inputs.drop_last());
        if controller_of(inputs.last()) == c {
            rest.push(inputs.last())
        } else {
            rest
        }
    }
}

/// The deliveries addressed to one controller, in order.
pub open spec fn deliveries_for(c: Seq<char>, ds: Seq<DeliveryView>) -> Seq<DeliveryView>
    decreases ds.len(),
{
    if ds.len() == 0 {
        Seq::empty()
    } else {
        let rest = deliveries_for(c, ds.drop_last());
        if ds.last().controller_name == c {
            rest.push(ds.last())
        } else {
            rest
        }
    }
}

/// Per controller, delivery order is arrival order: what one controller
/// receives from a batch is exactly what dispatching only its own inputs
/// would produce, item for item and in order. Together with the serial
/// delivery loop — each `on_event` returns before the next input is
/// taken — this makes `on_event` invocations per controller totally
/// ordered and never reentrant.
pub proof fn lemma_per_controller_order(
    reg: Registry,
    inputs: Seq<DispatcherInputView>,
    c: Seq<char>,
)
    ensures
        deliveries_for(c, spec_deliveries(reg, inputs)) == spec_deliveries(
            reg,
            inputs_for(c, inputs),
        ),
    decreases inputs.len(),
{
    if inputs.len() > 0 {
        let prev = inputs.drop_last();
        let l = inputs.last();
        lemma_per_controller_order(reg, prev, c);
        let dprev = spec_deliveries(reg, prev);
        if controller_of(l) == c {
            assert(inputs_for(c, inputs) == inputs_for(c, prev).push(l));
            assert(inputs_for(c, prev).push(l).drop_last() =~= inputs_for(c, prev));
            assert(inputs_for(c, prev).push(l).last() == l);
            if reg.is_live(c) {
                assert(spec_deliveries(reg, inputs) == dprev.push(delivery_of(l)));
                assert(dprev.push(delivery_of(l)).drop_last() =~= dprev);
                assert(delivery_of(l).controller_name == c);
            }
        } else {
            assert(inputs_for(c, inputs) == inputs_for(c, prev));
            if reg.is_live(controller_of(l)) {
                assert(spec_deliveries(reg, inputs) == dprev.push(delivery_of(l)));
                assert(dprev.push(delivery_of(l)).drop_last() =~= dprev);
                assert(delivery_of(l).controller_name != c);
            }
        }
    }
}

} // verus!
