//! Watch multiplexer.
//!
//! Guest modules subscribe to cluster watch streams; the multiplexer
//! coalesces subscriptions with equal [`WatchKey`]s onto one upstream
//! connection each, fans every upstream event out to the key's current
//! subscribers in order, and tears an upstream down when its last
//! subscriber goes. A `410 Gone` from the API server marks the upstream
//! desynced: subscribers see the error, the host backs off for a fixed
//! ten seconds, then the upstream re-opens listing from the current state.
//!
//! The embedder owns the connections; this module owns the bookkeeping
//! and says, for every observation, exactly what to emit and what to open
//! or close.

use vstd::prelude::*;

use crate::watch_data::{WatchKey, WatchKeyView};

verus! {

/// How long the host waits after a desync before it resets an upstream.
pub const DESYNC_BACKOFF_SECONDS: u32 = 10;

/// One guest subscription: which controller asked, under which
/// guest-assigned watch id events must be delivered.
#[derive(Debug)]
pub struct Subscriber {
    pub controller_name: String,
    pub watch_id: u64,
}

/// The mathematical image of a [`Subscriber`].
pub struct SubscriberView {
    pub controller_name: Seq<char>,
    pub watch_id: u64,
}

impl View for Subscriber {
    type V = SubscriberView;

    open spec fn view(&self) -> SubscriberView {
        SubscriberView { controller_name: self.controller_name@, watch_id: self.watch_id }
    }
}

/// One upstream watch connection: its key, its current subscribers in
/// subscription order, the high-water resource version seen so far, and
/// whether the upstream is sitting out a desync back-off.
#[derive(Debug)]
pub struct Upstream {
    pub key: WatchKey,
    pub subscribers: Vec<Subscriber>,
    pub resource_version: Vec<u8>,
    pub backing_off: bool,
}

/// The mathematical image of an [`Upstream`].
pub struct UpstreamView {
    pub key: WatchKeyView,
    pub subscribers: Seq<SubscriberView>,
    pub resource_version: Seq<u8>,
    pub backing_off: bool,
}

impl View for Upstream {
    type V = UpstreamView;

    open spec fn view(&self) -> UpstreamView {
        UpstreamView {
            key: self.key@,
            subscribers: self.subscribers@.map_values(|s: Subscriber| s@),
            resource_version: self.resource_version@,
            backing_off: self.backing_off,
        }
    }
}

/// A watch event addressed to one subscriber.
#[derive(Debug)]
pub struct WatchEvent {
    pub controller_name: String,
    pub watch_id: u64,
    pub event: Vec<u8>,
}

/// The mathematical image of a [`WatchEvent`].
pub struct WatchEventView {
    pub controller_name: Seq<char>,
    pub watch_id: u64,
    pub event: Seq<u8>,
}

impl View for WatchEvent {
    type V = WatchEventView;

    open spec fn view(&self) -> WatchEventView {
        WatchEventView {
            controller_name: self.controller_name@,
            watch_id: self.watch_id,
            event: self.event@,
        }
    }
}

/// A command from the ABI layer to the multiplexer.
#[derive(Debug)]
pub enum WatchCommand {
    /// Attach a subscriber under this key.
    Subscribe { controller_name: String, watch_id: u64, key: WatchKey },
}

/// The fanout of one event: a copy for every subscriber, in subscription
/// order, each under that subscriber's own watch id.
pub open spec fn fanout_spec(subs: Seq<SubscriberView>, event: Seq<u8>) -> Seq<WatchEventView> {
    subs.map_values(
        |s: SubscriberView|
            WatchEventView {
                controller_name: s.controller_name,
                watch_id: s.watch_id,
                event: event,
            },
    )
}

/// The multiplexer's state: the live upstreams, each with its
/// subscribers.
#[derive(Debug)]
pub struct Watchers {
    pub upstreams: Vec<Upstream>,
}

/// The mathematical image of the multiplexer.
pub struct WatchersView {
    pub upstreams: Seq<UpstreamView>,
}

impl View for Watchers {
    type V = WatchersView;

    open spec fn view(&self) -> WatchersView {
        WatchersView { upstreams: self.upstreams@.map_values(|u: Upstream| u@) }
    }
}

impl WatchersView {
    /// Some upstream holds this key.
    pub open spec fn has_key(self, k: WatchKeyView) -> bool {
        exists|i: int| 0 <= i < self.upstreams.len() && self.upstreams[i].key == k
    }

    /// Well-formedness: upstream keys are pairwise distinct — at most one
    /// upstream connection per watch key — and no upstream outlives its
    /// last subscriber.
    pub open spec fn wf(self) -> bool {
        &&& forall|i: int, j: int|
            0 <= i < j < self.upstreams.len() ==> #[trigger] self.upstreams[i].key
                != #[trigger] self.upstreams[j].key
        &&& forall|i: int|
            0 <= i < self.upstreams.len() ==> #[trigger] self.upstreams[i].subscribers.len() >= 1
    }
}

/// In a well-formed multiplexer there is exactly one upstream per held
/// key: two indices that hold equal keys are the same index.
pub proof fn lemma_one_upstream_per_key(w: WatchersView, i: int, j: int)
    requires
        w.wf(),
        0 <= i < w.upstreams.len(),
        0 <= j < w.upstreams.len(),
        w.upstreams[i].key == w.upstreams[j].key,
    ensures
        i == j,
{
}

impl Watchers {
    /// An empty multiplexer: no upstreams, no subscribers.
    pub fn new() -> (r: Watchers)
        ensures
            r@.upstreams.len() == 0,
            r@.wf(),
    {
        Watchers { upstreams: Vec::new() }
    }

    /// The index of the upstream that holds `key`, if any.
    fn find(&self, key: &WatchKey) -> (r: Option<usize>)
        ensures
            match r {
                Some(i) => i < self@.upstreams.len() && self@.upstreams[i as int].key == key@,
                None => !self@.has_key(key@),
            },
    {
        let mut i: usize = 0;
        while i < self.upstreams.len()
            invariant
                i <= self@.upstreams.len(),
                forall|j: int| 0 <= j < i ==> #[trigger] self@.upstreams[j].key != key@,
            decreases self@.upstreams.len() - i,
        {
            if self.upstreams[i].key.key_eq(key) {
                return Some(i);
            }
            i = i + 1;
        }
        None
    }

    /// Attach a subscriber. If an upstream for the key already runs, the
    /// subscriber joins its fanout list; otherwise a fresh upstream is
    /// recorded — starting at the key's resource version, not backing
    /// off — and the call returns true so the embedder opens the actual
    /// connection. Exactly then does the set of keys grow.
    pub fn subscribe(
        &mut self,
        controller_name: String,
        watch_id: u64,
        key: WatchKey,
    ) -> (opened: bool)
        requires
            old(self)@.wf(),
        ensures
            final(self)@.wf(),
            opened == !old(self)@.has_key(key@),
            final(self)@.has_key(key@),
            opened ==> final(self)@.upstreams == old(self)@.upstreams.push(
                UpstreamView {
                    key: key@,
                    subscribers: seq![
                        SubscriberView { controller_name: controller_name@, watch_id },
                    ],
                    resource_version: key@.resource_version,
                    backing_off: false,
                },
            ),
            !opened ==> exists|i: int|
                {
                    &&& 0 <= i < old(self)@.upstreams.len()
                    &&& old(self)@.upstreams[i].key == key@
                    &&& final(self)@.upstreams == old(self)@.upstreams.update(
                        i,
                        UpstreamView {
                            subscribers: old(self)@.upstreams[i].subscribers.push(
                                SubscriberView { controller_name: controller_name@, watch_id },
                            ),
                            ..old(self)@.upstreams[i]
                        },
                    )
                },
    {
        let sub = Subscriber { controller_name, watch_id };
        let ghost subv = sub@;
        let ghost kv = key@;
        match self.find(&key) {
            Some(i) => {
                let mut u = self.upstreams.remove(i);
                u.subscribers.push(sub);
                let ghost ua = u;
                self.upstreams.insert(i, u);
                proof {
                    assert(self.upstreams@ =~= old(self).upstreams@.update(i as int, ua));
                    assert(ua@.subscribers =~= old(self)@.upstreams[i as int].subscribers.push(
                        subv,
                    ));
                    assert(ua@ == UpstreamView {
                        subscribers: old(self)@.upstreams[i as int].subscribers.push(subv),
                        ..old(self)@.upstreams[i as int]
                    });
                    assert(self@.upstreams =~= old(self)@.upstreams.update(
                        i as int,
                        UpstreamView {
                            subscribers: old(self)@.upstreams[i as int].subscribers.push(subv),
                            ..old(self)@.upstreams[i as int]
                        },
                    ));
                    assert(self@.upstreams[i as int].key == kv);
                }
                false
            },
            None => {
                let version_copy = clone_bytes(&key.resource_version);
                let u = Upstream {
                    key,
                    subscribers: vec![sub],
                    resource_version: version_copy,
                    backing_off: false,
                };
                let ghost uv = u@;
                self.upstreams.push(u);
                proof {
                    assert(uv.subscribers =~= seq![subv]);
                    assert(uv == UpstreamView {
                        key: kv,
                        subscribers: seq![subv],
                        resource_version: kv.resource_version,
                        backing_off: false,
                    });
                    assert(self@.upstreams =~= old(self)@.upstreams.push(uv));
                    assert(self@.upstreams[old(self)@.upstreams.len() as int].key == kv);
                    assert forall|i: int, j: int|
                        0 <= i < j < self@.upstreams.len() implies #[trigger] self@.upstreams[i].key
                        != #[trigger] self@.upstreams[j].key by {
                        if j == self@.upstreams.len() - 1 {
                            assert(old(self)@.upstreams[i].key != kv);
                        } else {
                            assert(self@.upstreams[i] == old(self)@.upstreams[i]);
                            assert(self@.upstreams[j] == old(self)@.upstreams[j]);
                        }
                    }
                }
                true
            },
        }
    }

    /// The events one upstream item produces: a copy for every current
    /// subscriber of that key, in subscription order. A key nobody holds
    /// produces nothing.
    pub fn fanout(&self, key: &WatchKey, event: &Vec<u8>) -> (evs: Vec<WatchEvent>)
        ensures
            self@.has_key(key@) ==> exists|i: int|
                {
                    &&& 0 <= i < self@.upstreams.len()
                    &&& self@.upstreams[i].key == key@
                    &&& evs@.map_values(|e: WatchEvent| e@) == fanout_spec(
                        self@.upstreams[i].subscribers,
                        event@,
                    )
                },
            !self@.has_key(key@) ==> evs@.len() == 0,
    {
        match self.find(key) {
            Some(i) => {
                let u = &self.upstreams[i];
                let ghost subs = u@.subscribers;
                let mut evs: Vec<WatchEvent> = Vec::new();
                let mut j: usize = 0;
                while j < u.subscribers.len()
                    invariant
                        j <= subs.len(),
                        subs == u@.subscribers,
                        u == &self.upstreams[i as int],
                        i < self.upstreams@.len(),
                        evs@.len() == j,
                        forall|k: int|
                            0 <= k < j ==> {
                                &&& (#[trigger] evs@[k])@.controller_name
                                    == subs[k].controller_name
                                &&& evs@[k]@.watch_id == subs[k].watch_id
                                &&& evs@[k]@.event == event@
                            },
                    decreases subs.len() - j,
                {
                    let name = u.subscribers[j].controller_name.clone();
                    let bytes = clone_bytes(event);
                    evs.push(
                        WatchEvent {
                            controller_name: name,
                            watch_id: u.subscribers[j].watch_id,
                            event: bytes,
                        },
                    );
                    j = j + 1;
                }
                proof {
                    assert forall|k: int| 0 <= k < subs.len() implies evs@.map_values(
                        |e: WatchEvent| e@,
                    )[k] == fanout_spec(subs, event@)[k] by {
                        assert(evs@[k]@.controller_name == subs[k].controller_name);
                        assert(evs@[k]@.watch_id == subs[k].watch_id);
                        assert(evs@[k]@.event == event@);
                    }
                    assert(evs@.map_values(|e: WatchEvent| e@) =~= fanout_spec(subs, event@));
                    assert(self@.upstreams[i as int].key == key@);
                    assert(self@.upstreams[i as int].subscribers == subs);
                }
                evs
            },
            None => Vec::new(),
        }
    }

    /// Record the resource version an upstream item carried: the stream
    /// arrives in order, so the last seen version is the high-water mark.
    /// A key nobody holds changes nothing.
    pub fn record_version(&mut self, key: &WatchKey, version: &Vec<u8>)
        requires
            old(self)@.wf(),
        ensures
            final(self)@.wf(),
            old(self)@.has_key(key@) ==> exists|i: int|
                {
                    &&& 0 <= i < old(self)@.upstreams.len()
                    &&& old(self)@.upstreams[i].key == key@
                    &&& final(self)@.upstreams == old(self)@.upstreams.update(
                        i,
                        UpstreamView { resource_version: version@, ..old(self)@.upstreams[i] },
                    )
                },
            !old(self)@.has_key(key@) ==> final(self)@ == old(self)@,
    {
        match self.find(key) {
            Some(i) => {
                let mut u = self.upstreams.remove(i);
                u.resource_version = clone_bytes(version);
                self.upstreams.insert(i, u);
                proof {
                    assert(final(self)@.upstreams =~= old(self)@.upstreams.update(
                        i as int,
                        UpstreamView {
                            resource_version: version@,
                            ..old(self)@.upstreams[i as int]
                        },
                    ));
                }
            },
            None => {
                proof {
                    assert(final(self)@.upstreams =~= old(self)@.upstreams);
                }
            },
        }
    }
}


/// The subscribers of `subs` that do not belong to `name`, in order.
pub open spec fn keep_subs(subs: Seq<SubscriberView>, name: Seq<char>) -> Seq<SubscriberView>
    decreases subs.len(),
{
    if subs.len() == 0 {
        Seq::empty()
    } else {
        let rest = keep_subs(subs.drop_last(), name);
        if subs.last().controller_name == name {
            rest
        } else {
            rest.push(subs.last())
        }
    }
}

/// An upstream without the subscribers of `name`.
pub open spec fn strip_controller(u: UpstreamView, name: Seq<char>) -> UpstreamView {
    UpstreamView { subscribers: keep_subs(u.subscribers, name), ..u }
}

/// The upstreams that keep at least one subscriber once `name` is gone,
/// each stripped of `name`, in order.
pub open spec fn surviving(ups: Seq<UpstreamView>, name: Seq<char>) -> Seq<UpstreamView>
    decreases ups.len(),
{
    if ups.len() == 0 {
        Seq::empty()
    } else {
        let rest = surviving(ups.drop_last(), name);
        let stripped = strip_controller(ups.last(), name);
        if stripped.subscribers.len() == 0 {
            rest
        } else {
            rest.push(stripped)
        }
    }
}

/// The keys of the upstreams whose last subscriber belonged to `name`:
/// their connections close.
pub open spec fn closed_keys(ups: Seq<UpstreamView>, name: Seq<char>) -> Seq<WatchKeyView>
    decreases ups.len(),
{
    if ups.len() == 0 {
        Seq::empty()
    } else {
        let rest = closed_keys(ups.drop_last(), name);
        if strip_controller(ups.last(), name).subscribers.len() == 0 {
            rest.push(ups.last().key)
        } else {
            rest
        }
    }
}

/// `k` is the key of some upstream in `ups`.
pub open spec fn key_in(k: WatchKeyView, ups: Seq<UpstreamView>) -> bool {
    exists|i: int| 0 <= i < ups.len() && ups[i].key == k
}

/// Stripping a controller keeps no subscriber of that controller.
pub proof fn lemma_keep_subs_none_left(subs: Seq<SubscriberView>, name: Seq<char>, k: int)
    requires
        0 <= k < keep_subs(subs, name).len(),
    ensures
        keep_subs(subs, name)[k].controller_name != name,
    decreases subs.len(),
{
    if subs.len() > 0 {
        let rest = keep_subs(subs.drop_last(), name);
        if k < rest.len() {
            lemma_keep_subs_none_left(subs.drop_last(), name, k);
        }
    }
}

/// The surviving upstreams keep pairwise-distinct keys, and every
/// surviving key was a key before.
pub proof fn lemma_surviving_distinct(ups: Seq<UpstreamView>, name: Seq<char>)
    requires
        forall|i: int, j: int|
            0 <= i < j < ups.len() ==> #[trigger] ups[i].key != #[trigger] ups[j].key,
    ensures
        forall|i: int, j: int|
            0 <= i < j < surviving(ups, name).len() ==> #[trigger] surviving(ups, name)[i].key
                != #[trigger] surviving(ups, name)[j].key,
        forall|k: int|
            0 <= k < surviving(ups, name).len() ==> key_in(
                #[trigger] surviving(ups, name)[k].key,
                ups,
            ),
    decreases ups.len(),
{
    if ups.len() > 0 {
        let prev = ups.drop_last();
        assert(forall|i: int, j: int|
            0 <= i < j < prev.len() ==> #[trigger] prev[i].key != #[trigger] prev[j].key) by {
            assert(forall|i: int| 0 <= i < prev.len() ==> prev[i] == ups[i]);
        }
        lemma_surviving_distinct(prev, name);
        let sv = surviving(ups, name);
        let rest = surviving(prev, name);
        assert(forall|k: int|
            0 <= k < rest.len() ==> key_in(#[trigger] rest[k].key, prev) ==> key_in(
                rest[k].key,
                ups,
            )) by {
            assert(forall|i: int| 0 <= i < prev.len() ==> prev[i] == ups[i]);
        }
        assert forall|k: int| 0 <= k < sv.len() implies key_in(#[trigger] sv[k].key, ups) by {
            if k < rest.len() {
                assert(key_in(rest[k].key, prev));
                let w = choose|i: int| 0 <= i < prev.len() && prev[i].key == rest[k].key;
                assert(ups[w].key == sv[k].key);
            } else {
                assert(sv[k].key == ups[ups.len() - 1].key);
            }
        }
        if strip_controller(ups.last(), name).subscribers.len() > 0 {
            assert forall|i: int, j: int|
                0 <= i < j < sv.len() implies #[trigger] sv[i].key != #[trigger] sv[j].key by {
                if j == sv.len() - 1 {
                    assert(key_in(sv[i].key, prev));
                    let w = choose|i2: int| 0 <= i2 < prev.len() && prev[i2].key == sv[i].key;
                    assert(ups[w].key != ups[ups.len() - 1].key);
                }
            }
        }
    }
}


/// After a teardown the removed controller is gone everywhere: no
/// surviving upstream keeps a subscriber of that name. An upstream only
/// ever fans out to its current subscribers, so a controller that
/// unsubscribed — during a back-off or otherwise — sees no further
/// events from any upstream.
pub proof fn lemma_teardown_is_silent(ups: Seq<UpstreamView>, name: Seq<char>, k: int, j: int)
    requires
        0 <= k < surviving(ups, name).len(),
        0 <= j < surviving(ups, name)[k].subscribers.len(),
    ensures
        surviving(ups, name)[k].subscribers[j].controller_name != name,
    decreases ups.len(),
{
    if ups.len() > 0 {
        let rest = surviving(ups.drop_last(), name);
        if k < rest.len() {
            lemma_teardown_is_silent(ups.drop_last(), name, k, j);
        } else {
            lemma_keep_subs_none_left(ups.last().subscribers, name, j);
        }
    }
}

/// A fanout over subscribers that do not include a controller carries no
/// event addressed to it.
pub proof fn lemma_fanout_skips_absent(
    subs: Seq<SubscriberView>,
    name: Seq<char>,
    event: Seq<u8>,
    j: int,
)
    requires
        forall|i: int| 0 <= i < subs.len() ==> #[trigger] subs[i].controller_name != name,
        0 <= j < fanout_spec(subs, event).len(),
    ensures
        fanout_spec(subs, event)[j].controller_name != name,
{
}

impl Watchers {
    /// Note an error event from an upstream. A `410 Gone` on a live
    /// upstream that is not already sitting out a back-off marks it
    /// desynced and asks the embedder for exactly one reset after the
    /// fixed back-off; every other error changes nothing. The embedder
    /// fans the error out to subscribers before it acts on the plan, so
    /// guests observe the resync.
    pub fn observe_error(&mut self, key: &WatchKey, code: u16) -> (plan: Option<u32>)
        requires
            old(self)@.wf(),
        ensures
            final(self)@.wf(),
            match plan {
                Some(backoff_seconds) => {
                    &&& code == 410
                    &&& backoff_seconds == DESYNC_BACKOFF_SECONDS
                    &&& exists|i: int|
                        {
                            &&& 0 <= i < old(self)@.upstreams.len()
                            &&& old(self)@.upstreams[i].key == key@
                            &&& !old(self)@.upstreams[i].backing_off
                            &&& final(self)@.upstreams == old(self)@.upstreams.update(
                                i,
                                UpstreamView { backing_off: true, ..old(self)@.upstreams[i] },
                            )
                        }
                },
                None => {
                    &&& final(self)@ == old(self)@
                    &&& (code == 410 && old(self)@.has_key(key@) ==> exists|i: int|
                        0 <= i < old(self)@.upstreams.len() && old(self)@.upstreams[i].key == key@
                            && old(self)@.upstreams[i].backing_off)
                },
            },
    {
        if code != 410 {
            proof {
                assert(self@.upstreams =~= old(self)@.upstreams);
            }
            return None;
        }
        match self.find(key) {
            Some(i) => {
                if self.upstreams[i].backing_off {
                    proof {
                        assert(self@.upstreams =~= old(self)@.upstreams);
                    }
                    None
                } else {
                    let mut u = self.upstreams.remove(i);
                    u.backing_off = true;
                    let ghost ua = u;
                    self.upstreams.insert(i, u);
                    proof {
                        assert(self.upstreams@ =~= old(self).upstreams@.update(i as int, ua));
                        assert(self@.upstreams =~= old(self)@.upstreams.update(
                            i as int,
                            UpstreamView { backing_off: true, ..old(self)@.upstreams[i as int] },
                        ));
                    }
                    Some(DESYNC_BACKOFF_SECONDS)
                }
            },
            None => {
                proof {
                    assert(self@.upstreams =~= old(self)@.upstreams);
                }
                None
            },
        }
    }

    /// Finish a desync back-off: the upstream forgets its resource
    /// version — it will list from the current state — and stops backing
    /// off. Answers whether there was a backed-off upstream to reset.
    pub fn complete_reset(&mut self, key: &WatchKey) -> (reset: bool)
        requires
            old(self)@.wf(),
        ensures
            final(self)@.wf(),
            reset == (exists|i: int|
                0 <= i < old(self)@.upstreams.len() && old(self)@.upstreams[i].key == key@ && old(
                    self,
                )@.upstreams[i].backing_off),
            reset ==> exists|i: int|
                {
                    &&& 0 <= i < old(self)@.upstreams.len()
                    &&& old(self)@.upstreams[i].key == key@
                    &&& old(self)@.upstreams[i].backing_off
                    &&& final(self)@.upstreams == old(self)@.upstreams.update(
                        i,
                        UpstreamView {
                            resource_version: Seq::empty(),
                            backing_off: false,
                            ..old(self)@.upstreams[i]
                        },
                    )
                },
            !reset ==> final(self)@ == old(self)@,
    {
        match self.find(key) {
            Some(i) => {
                if self.upstreams[i].backing_off {
                    let mut u = self.upstreams.remove(i);
                    u.resource_version = Vec::new();
                    u.backing_off = false;
                    let ghost ua = u;
                    self.upstreams.insert(i, u);
                    proof {
                        assert(self.upstreams@ =~= old(self).upstreams@.update(i as int, ua));
                        assert(self@.upstreams =~= old(self)@.upstreams.update(
                            i as int,
                            UpstreamView {
                                resource_version: Seq::empty(),
                                backing_off: false,
                                ..old(self)@.upstreams[i as int]
                            },
                        ));
                    }
                    true
                } else {
                    proof {
                        assert(self@.upstreams =~= old(self)@.upstreams);
                    }
                    false
                }
            },
            None => {
                proof {
                    assert(self@.upstreams =~= old(self)@.upstreams);
                }
                false
            },
        }
    }

    /// Tear a controller down: drop its subscriptions everywhere. An
    /// upstream whose last subscriber goes is removed, and its key is
    /// returned so the embedder closes the connection. Remaining
    /// subscribers and upstreams keep their order, and see nothing of it.
    pub fn remove_controller(&mut self, name: &String) -> (closed: Vec<WatchKey>)
        requires
            old(self)@.wf(),
        ensures
            final(self)@.wf(),
            final(self)@.upstreams == surviving(old(self)@.upstreams, name@),
            closed@.map_values(|k: WatchKey| k@) == closed_keys(old(self)@.upstreams, name@),
    {
        let ghost orig = old(self)@.upstreams;
        let mut taken: Vec<Upstream> = Vec::new();
        core::mem::swap(&mut taken, &mut self.upstreams);
        proof {
            assert(taken@.map_values(|u: Upstream| u@) == orig);
        }
        let mut closed: Vec<WatchKey> = Vec::new();
        let ghost processed = 0int;
        let mut i: usize = 0;
        while i < taken.len()
            invariant
                i <= taken@.len(),
                taken@.map_values(|u: Upstream| u@) == orig,
                self.upstreams@.map_values(|u: Upstream| u@) =~= surviving(
                    orig.take(i as int),
                    name@,
                ),
                closed@.map_values(|k: WatchKey| k@) =~= closed_keys(orig.take(i as int), name@),
            decreases taken@.len() - i,
        {
            let u = &taken[i];
            let ghost uv = u@;
            let mut kept_subs: Vec<Subscriber> = Vec::new();
            let mut j: usize = 0;
            while j < u.subscribers.len()
                invariant
                    j <= u.subscribers@.len(),
                    u == &taken[i as int],
                    i < taken@.len(),
                    uv == u@,
                    kept_subs@.map_values(|x: Subscriber| x@) =~= keep_subs(
                        uv.subscribers.take(j as int),
                        name@,
                    ),
                decreases u.subscribers@.len() - j,
            {
                proof {
                    assert(uv.subscribers.take(j + 1 as int).drop_last() =~= uv.subscribers.take(
                        j as int,
                    ));
                    assert(uv.subscribers.take(j + 1 as int).last() == uv.subscribers[j as int]);
                }
                if !string_eq(&u.subscribers[j].controller_name, name) {
                    let sub_name = u.subscribers[j].controller_name.clone();
                    kept_subs.push(
                        Subscriber { controller_name: sub_name, watch_id: u.subscribers[j].watch_id },
                    );
                    proof {
                        assert(kept_subs@.map_values(|x: Subscriber| x@) =~= keep_subs(
                            uv.subscribers.take(j + 1 as int),
                            name@,
                        ));
                    }
                } else {
                    proof {
                        assert(kept_subs@.map_values(|x: Subscriber| x@) =~= keep_subs(
                            uv.subscribers.take(j + 1 as int),
                            name@,
                        ));
                    }
                }
                j = j + 1;
            }
            proof {
                assert(uv.subscribers.take(uv.subscribers.len() as int) =~= uv.subscribers);
                assert(orig.take(i + 1 as int).drop_last() =~= orig.take(i as int));
                assert(orig.take(i + 1 as int).last() == orig[i as int]);
                assert(orig[i as int] == uv);
            }
            let key_copy = clone_watch_key(&u.key);
            let version_copy = clone_bytes(&u.resource_version);
            if kept_subs.len() > 0 {
                let nu = Upstream {
                    key: key_copy,
                    subscribers: kept_subs,
                    resource_version: version_copy,
                    backing_off: u.backing_off,
                };
                let ghost nuv = nu@;
                self.upstreams.push(nu);
                proof {
                    assert(nuv == strip_controller(uv, name@));
                    assert(self.upstreams@.map_values(|x: Upstream| x@) =~= surviving(
                        orig.take(i + 1 as int),
                        name@,
                    ));
                    assert(closed@.map_values(|k: WatchKey| k@) =~= closed_keys(
                        orig.take(i + 1 as int),
                        name@,
                    ));
                }
            } else {
                closed.push(key_copy);
                proof {
                    assert(strip_controller(uv, name@).subscribers.len() == 0);
                    assert(self.upstreams@.map_values(|x: Upstream| x@) =~= surviving(
                        orig.take(i + 1 as int),
                        name@,
                    ));
                    assert(closed@.map_values(|k: WatchKey| k@) =~= closed_keys(
                        orig.take(i + 1 as int),
                        name@,
                    ));
                }
            }
            i = i + 1;
        }
        proof {
            assert(orig.take(orig.len() as int) =~= orig);
            lemma_surviving_distinct(orig, name@);
            assert forall|k: int|
                0 <= k < surviving(orig, name@).len() implies #[trigger] surviving(
                orig,
                name@,
            )[k].subscribers.len() >= 1 by {
                lemma_surviving_nonempty(orig, name@, k);
            }
        }
        closed
    }
}

/// A surviving upstream still has a subscriber.
proof fn lemma_surviving_nonempty(ups: Seq<UpstreamView>, name: Seq<char>, k: int)
    requires
        0 <= k < surviving(ups, name).len(),
    ensures
        surviving(ups, name)[k].subscribers.len() >= 1,
    decreases ups.len(),
{
    if ups.len() > 0 {
        let rest = surviving(ups.drop_last(), name);
        if k < rest.len() {
            lemma_surviving_nonempty(ups.drop_last(), name, k);
        }
    }
}

/// Copy a watch key.
fn clone_watch_key(k: &WatchKey) -> (r: WatchKey)
    ensures
        r@ == k@,
{
    WatchKey {
        resource: crate::watch_data::Resource {
            api_version: clone_bytes(&k.resource.api_version),
            group: clone_bytes(&k.resource.group),
            kind: clone_bytes(&k.resource.kind),
            version: clone_bytes(&k.resource.version),
            namespace: clone_opt_bytes(&k.resource.namespace),
        },
        list_params: crate::watch_data::ListParams {
            field_selector: clone_opt_bytes(&k.list_params.field_selector),
            label_selector: clone_opt_bytes(&k.list_params.label_selector),
            timeout: k.list_params.timeout,
            allow_bookmarks: k.list_params.allow_bookmarks,
            limit: k.list_params.limit,
            continue_token: clone_opt_bytes(&k.list_params.continue_token),
        },
        resource_version: clone_bytes(&k.resource_version),
    }
}

/// Copy an optional byte string.
fn clone_opt_bytes(o: &Option<Vec<u8>>) -> (r: Option<Vec<u8>>)
    ensures
        crate::watch_data::oview(r) == crate::watch_data::oview(*o),
{
    match o {
        Some(b) => Some(clone_bytes(b)),
        None => None,
    }
}

/// String equality over the views.
fn string_eq(a: &String, b: &String) -> (r: bool)
    ensures
        r == (a@ == b@),
{
    a.eq(b)
}

/// Copy a byte string.
fn clone_bytes(b: &Vec<u8>) -> (r: Vec<u8>)
    ensures
        r@ == b@,
{
    let mut out: Vec<u8> = Vec::new();
    let mut i: usize = 0;
    while i < b.len()
        invariant
            i <= b@.len(),
            out@ == b@.subrange(0, i as int),
        decreases b@.len() - i,
    {
        out.push(b[i]);
        proof {
            assert(out@ =~= b@.subrange(0, i + 1 as int));
        }
        i = i + 1;
    }
    proof {
        assert(b@.subrange(0, b@.len() as int) =~= b@);
    }
    out
}

} // verus!
