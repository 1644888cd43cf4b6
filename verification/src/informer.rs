//! An event informer for one watched resource.
//!
//! The informer tracks the last seen resource version across a stream of
//! watch events, so every poll resumes where the last one ended, and
//! notes a `410 Gone` so the next poll backs off and starts over from
//! the current state. The long-poll call itself is the embedder's; it
//! feeds every event back through [`Informer::observe_event`].

use vstd::prelude::*;

use crate::error::ErrorResponse;
use crate::watch_data::ListParams;

verus! {

/// What the informer reads off a watched object: its resource version.
#[derive(Debug)]
pub struct EventMeta {
    pub resource_version: Option<String>,
}

/// One item of a watch stream.
#[derive(Debug)]
pub enum WatchEvent {
    Added(EventMeta),
    Modified(EventMeta),
    Deleted(EventMeta),
    Bookmark(EventMeta),
    Error(ErrorResponse),
}

/// The resource version an event carries, if any; an error carries none.
pub open spec fn event_version(e: WatchEvent) -> Option<Seq<char>> {
    match e {
        WatchEvent::Added(m) | WatchEvent::Modified(m) | WatchEvent::Deleted(m)
            | WatchEvent::Bookmark(m) => match m.resource_version {
            Option::Some(v) => Option::Some(v@),
            Option::None => Option::None,
        },
        WatchEvent::Error(_) => Option::None,
    }
}

/// Whether an event is the desync signal: an error with code `410`.
pub open spec fn event_is_desync(e: WatchEvent) -> bool {
    match e {
        WatchEvent::Error(er) => er.code == 410,
        _ => false,
    }
}

/// An event informer for one watched resource: the watch parameters, the
/// last seen resource version, and whether the stream desynced.
#[derive(Debug)]
pub struct Informer {
    pub params: ListParams,
    pub version: String,
    pub needs_resync: bool,
}

impl Informer {
    /// A fresh informer: version `0`, no desync, default parameters.
    pub fn new() -> (r: Informer)
        ensures
            r.version@ == "0"@,
            r.needs_resync == false,
            r.params@.field_selector is None,
            r.params@.label_selector is None,
            r.params@.timeout is None,
            r.params@.allow_bookmarks == false,
            r.params@.limit is None,
            r.params@.continue_token is None,
    {
        Informer {
            params: ListParams {
                field_selector: None,
                label_selector: None,
                timeout: None,
                allow_bookmarks: false,
                limit: None,
                continue_token: None,
            },
            version: "0".to_owned(),
            needs_resync: false,
        }
    }

    /// Modify the default watch parameters for the underlying watch.
    pub fn params(self, lp: ListParams) -> (r: Informer)
        ensures
            r.params@ == lp@,
            r.version@ == self.version@,
            r.needs_resync == self.needs_resync,
    {
        Informer { params: lp, ..self }
    }

    /// Override the version to an externally tracked version.
    pub fn set_version(self, v: String) -> (r: Informer)
        ensures
            r.version@ == v@,
            r.params@ == self.params@,
            r.needs_resync == self.needs_resync,
    {
        Informer { version: v, ..self }
    }

    /// Reset the resource version to `0`: the next poll sees an added
    /// event for every live object.
    pub fn reset(&mut self)
        ensures
            final(self).version@ == "0"@,
            final(self).params@ == old(self).params@,
            final(self).needs_resync == old(self).needs_resync,
    {
        self.version = "0".to_owned();
    }

    /// Return the current version.
    pub fn version(&self) -> (r: String)
        ensures
            r@ == self.version@,
    {
        self.version.clone()
    }

    /// Track one stream item: an object event with a resource version
    /// advances the high-water mark — the stream arrives in order, so
    /// last seen is highest — and a `410` error marks the stream
    /// desynced. Everything else changes nothing.
    pub fn observe_event(&mut self, e: &WatchEvent)
        ensures
            final(self).params@ == old(self).params@,
            match event_version(*e) {
                Option::Some(v) => {
                    &&& final(self).version@ == v
                    &&& final(self).needs_resync == old(self).needs_resync
                },
                Option::None => {
                    &&& final(self).version@ == old(self).version@
                    &&& final(self).needs_resync == (old(self).needs_resync || event_is_desync(
                        *e,
                    ))
                },
            },
    {
        match e {
            WatchEvent::Added(m) | WatchEvent::Modified(m) | WatchEvent::Deleted(m)
                | WatchEvent::Bookmark(m) => {
                match &m.resource_version {
                    Some(nv) => {
                        self.version = nv.clone();
                    },
                    None => {},
                }
            },
            WatchEvent::Error(er) => {
                if er.code == 410 {
                    self.needs_resync = true;
                }
            },
        }
    }

    /// The step before each poll: a desynced informer asks the embedder
    /// to sleep the fixed back-off first, starts over from version `0`,
    /// and clears the mark — exactly one reset per desync. A healthy
    /// informer polls at once.
    ///
    /// Version `0` is this client-side informer's convention: the next
    /// poll replays an added event for every live object. The host's
    /// multiplexer resets its upstreams to the empty version instead —
    /// list from the current state — in `Watchers::complete_reset`; the
    /// two sit on different sides of the watch protocol and keep their
    /// own conventions.
    pub fn prepare_poll(&mut self) -> (backoff: Option<u32>)
        ensures
            final(self).params@ == old(self).params@,
            final(self).needs_resync == false,
            match backoff {
                Option::Some(secs) => {
                    &&& old(self).needs_resync
                    &&& secs == crate::mux::DESYNC_BACKOFF_SECONDS
                    &&& final(self).version@ == "0"@
                },
                Option::None => {
                    &&& !old(self).needs_resync
                    &&& final(self).version@ == old(self).version@
                },
            },
    {
        if self.needs_resync {
            self.needs_resync = false;
            self.version = "0".to_owned();
            Some(crate::mux::DESYNC_BACKOFF_SECONDS)
        } else {
            None
        }
    }
}

} // verus!
