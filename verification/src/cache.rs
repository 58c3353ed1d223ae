//! What was fetched for a subscription, as the cache store holds it, and the
//! steps by which it is read from the store or fetched from its origin.

use vstd::prelude::*;
use crate::parser::remote_configure::{RemoteConfigure, RemoteConfigureView};
use crate::web::{optimized, ErrorCode};

verus! {

/// For how many seconds the store keeps what was fetched.
pub const CACHE_TIME: usize = 600;

/// What was fetched for a subscription: the document and the quota figures
/// that came with it, written and read as one. An envelope of a store that
/// does not forget by itself also says when it was written.
pub struct FileCache {
    remote_status: String,
    content: String,
    timestamp: Option<u64>,
}

/// What a `FileCache` holds.
pub struct FileCacheView {
    pub content: Seq<char>,
    pub remote_status: Seq<char>,
    pub timestamp: Option<u64>,
}

impl View for FileCache {
    type V = FileCacheView;

    closed spec fn view(&self) -> FileCacheView {
        FileCacheView {
            content: self.content@,
            remote_status: self.remote_status@,
            timestamp: self.timestamp,
        }
    }
}

/// Whether an envelope can still be served at the time `now`: always where
/// it carries no time, since the store then forgets it by itself; else as
/// long as it is no older than `CACHE_TIME` seconds.
pub open spec fn fresh(envelope: FileCacheView, now: u64) -> bool {
    match envelope.timestamp {
        Some(written) => now <= written || now - written <= CACHE_TIME,
        None => true,
    }
}

impl FileCache {
    pub fn content(&self) -> (r: &str)
        ensures
            r@ == self@.content,
    {
        self.content.as_str()
    }

    /// The envelope for a document and the quota figures that came with it.
    pub fn new(content: (String, String)) -> (r: Self)
        ensures
            r@ == (FileCacheView {
                content: content.0@,
                remote_status: content.1@,
                timestamp: None,
            }),
    {
        FileCache { remote_status: content.1, content: content.0, timestamp: None }
    }

    /// The same envelope, said to be written at `now`.
    pub fn stamped(self, now: u64) -> (r: Self)
        ensures
            r@ == (FileCacheView { timestamp: Some(now), ..self@ }),
    {
        FileCache { remote_status: self.remote_status, content: self.content, timestamp: Some(now) }
    }

    pub fn timestamp(&self) -> (r: Option<u64>)
        ensures
            r == self@.timestamp,
    {
        self.timestamp
    }

    pub fn remote_status(&self) -> (r: String)
        ensures
            r@ == self@.remote_status,
    {
        self.remote_status.clone()
    }

    /// Whether the envelope can still be served at the time `now`.
    pub fn is_fresh(&self, now: u64) -> (r: bool)
        ensures
            r == fresh(self@, now),
    {
        match self.timestamp {
            Some(written) => now <= written || now - written <= CACHE_TIME as u64,
            None => true,
        }
    }
}

impl Clone for FileCache {
    fn clone(&self) -> (r: Self)
        ensures
            r@ == self@,
    {
        FileCache {
            remote_status: self.remote_status.clone(),
            content: self.content.clone(),
            timestamp: self.timestamp,
        }
    }
}

/// The subscription document that a merge starts from. What was fetched has
/// been parsed by the caller: a text that did not parse is `NotAcceptable`;
/// a document that did has the names of its templates taken out of its
/// groups.
pub fn parse_remote_configure(parsed: Option<RemoteConfigure>) -> (r: Result<
    RemoteConfigure,
    ErrorCode,
>)
    ensures
        match r {
            Ok(remote) => parsed is Some && remote@ == optimized(parsed->0@),
            Err(code) => parsed is None && code == ErrorCode::NotAcceptable,
        },
{
    match parsed {
        Some(ret) => {
            let mut ret = ret;
            ret.optimize();
            Ok(ret)
        },
        None => Err(ErrorCode::NotAcceptable),
    }
}

/// Where a read-or-fetch stands.
#[derive(Clone, Copy, Debug, PartialEq, Eq, Structural)]
pub enum FetchState {
    /// Nothing was done yet.
    Start,
    /// The store was asked whether it holds the key.
    Probing,
    /// The store was asked for what it holds under the key.
    Reading,
    /// The origin was asked for the document.
    Fetching { write_back: bool },
    /// The outcome was handed out.
    Done,
}

/// What happened since the last step.
pub enum FetchEvent {
    /// The read-or-fetch begins. The store is reachable or not, and caching
    /// is switched off or not.
    Begin { store_reachable: bool, cache_disabled: bool },
    /// The store said whether it holds the key, or failed to say.
    Exists(Option<bool>),
    /// The store handed out what it holds under the key, read at the time
    /// `now`; or it failed, or holds nothing, or what it holds is no
    /// envelope.
    Entry { envelope: Option<FileCache>, now: u64 },
    /// The origin answered with a document and its quota figures, or the
    /// fetch failed.
    Fetched(Option<(String, String)>),
}

/// What is to be done next.
pub enum FetchAction {
    /// Ask the store whether it holds the key.
    AskExists,
    /// Ask the store for what it holds under the key.
    ReadEntry,
    /// Fetch the document from its origin, once.
    FetchOrigin,
    /// Hand out the envelope. It came from the store.
    Return(FileCache),
    /// Hand out the envelope. It came from the origin: where `write_back`
    /// says so, first try to write it to the store; a failure there is
    /// logged and changes nothing.
    ReturnFetched { envelope: FileCache, write_back: bool },
    /// Fail the request.
    Fail(ErrorCode),
}

/// An event as the steps are stated over it.
pub enum FetchEventView {
    Begin { store_reachable: bool, cache_disabled: bool },
    Exists(Option<bool>),
    Entry { envelope: Option<FileCacheView>, now: u64 },
    Fetched(Option<(Seq<char>, Seq<char>)>),
}

/// An action as the steps are stated over it.
pub enum FetchActionView {
    AskExists,
    ReadEntry,
    FetchOrigin,
    Return(FileCacheView),
    ReturnFetched { envelope: FileCacheView, write_back: bool },
    Fail(ErrorCode),
}

impl View for FetchEvent {
    type V = FetchEventView;

    open spec fn view(&self) -> FetchEventView {
        match *self {
            FetchEvent::Begin { store_reachable, cache_disabled } => FetchEventView::Begin {
                store_reachable,
                cache_disabled,
            },
            FetchEvent::Exists(answer) => FetchEventView::Exists(answer),
            FetchEvent::Entry { envelope, now } => FetchEventView::Entry {
                envelope: match envelope {
                    Some(e) => Some(e@),
                    None => None,
                },
                now,
            },
            FetchEvent::Fetched(pair) => FetchEventView::Fetched(
                match pair {
                    Some((content, status)) => Some((content@, status@)),
                    None => None,
                },
            ),
        }
    }
}

impl View for FetchAction {
    type V = FetchActionView;

    open spec fn view(&self) -> FetchActionView {
        match *self {
            FetchAction::AskExists => FetchActionView::AskExists,
            FetchAction::ReadEntry => FetchActionView::ReadEntry,
            FetchAction::FetchOrigin => FetchActionView::FetchOrigin,
            FetchAction::Return(envelope) => FetchActionView::Return(envelope@),
            FetchAction::ReturnFetched { envelope, write_back } => FetchActionView::ReturnFetched {
                envelope: envelope@,
                write_back,
            },
            FetchAction::Fail(code) => FetchActionView::Fail(code),
        }
    }
}

/// One step of a read-or-fetch: the state after the event, and what is to be
/// done.
///
/// The store is asked only where it is reachable and caching is not switched
/// off. Whatever the store fails at counts as a miss. A hit is an envelope
/// that is still fresh; it is handed out as it was read. On a miss the
/// origin is asked, once; a failure there fails the request as a timeout.
/// What was fetched is written back wherever the store is reachable. An
/// event that does not belong to the state fails the request.
pub open spec fn step(state: FetchState, event: FetchEventView) -> (FetchState, FetchActionView) {
    match (state, event) {
        (FetchState::Start, FetchEventView::Begin { store_reachable, cache_disabled }) => {
            if store_reachable && !cache_disabled {
                (FetchState::Probing, FetchActionView::AskExists)
            } else {
                (FetchState::Fetching { write_back: store_reachable }, FetchActionView::FetchOrigin)
            }
        },
        (FetchState::Probing, FetchEventView::Exists(answer)) => {
            if answer == Some(true) {
                (FetchState::Reading, FetchActionView::ReadEntry)
            } else {
                (FetchState::Fetching { write_back: true }, FetchActionView::FetchOrigin)
            }
        },
        (FetchState::Reading, FetchEventView::Entry { envelope, now }) => {
            if envelope is Some && fresh(envelope->0, now) {
                (FetchState::Done, FetchActionView::Return(envelope->0))
            } else {
                (FetchState::Fetching { write_back: true }, FetchActionView::FetchOrigin)
            }
        },
        (FetchState::Fetching { write_back }, FetchEventView::Fetched(pair)) => {
            match pair {
                Some((content, status)) => (
                    FetchState::Done,
                    FetchActionView::ReturnFetched {
                        envelope: FileCacheView { content, remote_status: status, timestamp: None },
                        write_back,
                    },
                ),
                None => (FetchState::Done, FetchActionView::Fail(ErrorCode::RequestTimeout)),
            }
        },
        _ => (FetchState::Done, FetchActionView::Fail(ErrorCode::InternalServerError)),
    }
}

/// One step of a read-or-fetch, see `step`.
pub fn read_or_fetch(state: FetchState, event: FetchEvent) -> (r: (FetchState, FetchAction))
    ensures
        (r.0, r.1@) == step(state, event@),
{
    match (state, event) {
        (FetchState::Start, FetchEvent::Begin { store_reachable, cache_disabled }) => {
            if store_reachable && !cache_disabled {
                (FetchState::Probing, FetchAction::AskExists)
            } else {
                (FetchState::Fetching { write_back: store_reachable }, FetchAction::FetchOrigin)
            }
        },
        (FetchState::Probing, FetchEvent::Exists(answer)) => {
            match answer {
                Some(true) => (FetchState::Reading, FetchAction::ReadEntry),
                _ => (FetchState::Fetching { write_back: true }, FetchAction::FetchOrigin),
            }
        },
        (FetchState::Reading, FetchEvent::Entry { envelope, now }) => {
            match envelope {
                Some(cache) => {
                    if cache.is_fresh(now) {
                        (FetchState::Done, FetchAction::Return(cache))
                    } else {
                        (FetchState::Fetching { write_back: true }, FetchAction::FetchOrigin)
                    }
                },
                None => (FetchState::Fetching { write_back: true }, FetchAction::FetchOrigin),
            }
        },
        (FetchState::Fetching { write_back }, FetchEvent::Fetched(pair)) => {
            match pair {
                Some(content) => (
                    FetchState::Done,
                    FetchAction::ReturnFetched { envelope: FileCache::new(content), write_back },
                ),
                None => (FetchState::Done, FetchAction::Fail(ErrorCode::RequestTimeout)),
            }
        },
        _ => (FetchState::Done, FetchAction::Fail(ErrorCode::InternalServerError)),
    }
}

/// How often the origin is asked while the events are taken one after the
/// other, starting in `state`.
pub open spec fn origin_fetches(state: FetchState, events: Seq<FetchEventView>) -> nat
    decreases events.len(),
{
    if events.len() == 0 {
        0
    } else {
        let (next, action) = step(state, events[0]);
        (if action is FetchOrigin {
            1nat
        } else {
            0nat
        }) + origin_fetches(next, events.drop_first())
    }
}

/// Once the origin was asked, or the outcome was handed out, the origin is
/// not asked again.
proof fn lemma_no_second_fetch(state: FetchState, events: Seq<FetchEventView>)
    requires
        state is Fetching || state is Done,
    ensures
        origin_fetches(state, events) == 0,
    decreases events.len(),
{
    if events.len() > 0 {
        lemma_no_second_fetch(step(state, events[0]).0, events.drop_first());
    }
}

/// Whatever happens, one read-or-fetch asks the origin at most once.
pub proof fn lemma_one_fetch_at_most(state: FetchState, events: Seq<FetchEventView>)
    ensures
        origin_fetches(state, events) <= 1,
    decreases events.len(),
{
    if events.len() > 0 {
        let (next, action) = step(state, events[0]);
        if action is FetchOrigin {
            lemma_no_second_fetch(next, events.drop_first());
        } else {
            lemma_one_fetch_at_most(next, events.drop_first());
        }
    }
}

/// The round trip through a store that is reachable, with caching on: an
/// envelope that is read back while it is fresh is handed out as it was
/// written, and the origin is not asked; one that is read back too late is
/// not handed out, and the origin is asked exactly once.
pub proof fn lemma_round_trip(envelope: FileCacheView, now: u64, fetched: Option<(Seq<char>, Seq<char>)>)
    ensures
        ({
            let events = seq![
                FetchEventView::Begin { store_reachable: true, cache_disabled: false },
                FetchEventView::Exists(Some(true)),
                FetchEventView::Entry { envelope: Some(envelope), now },
            ];
            &&& step(FetchState::Reading, events[2]) == if fresh(envelope, now) {
                (FetchState::Done, FetchActionView::Return(envelope))
            } else {
                (FetchState::Fetching { write_back: true }, FetchActionView::FetchOrigin)
            }
            &&& origin_fetches(FetchState::Start, events) == if fresh(envelope, now) {
                0nat
            } else {
                1nat
            }
            &&& origin_fetches(FetchState::Start, events.push(FetchEventView::Fetched(fetched)))
                == if fresh(envelope, now) {
                0nat
            } else {
                1nat
            }
        }),
{
    let events = seq![
        FetchEventView::Begin { store_reachable: true, cache_disabled: false },
        FetchEventView::Exists(Some(true)),
        FetchEventView::Entry { envelope: Some(envelope), now },
    ];
    let more = events.push(FetchEventView::Fetched(fetched));
    reveal_with_fuel(origin_fetches, 6);
    let e1 = events.drop_first();
    let e2 = e1.drop_first();
    let e3 = e2.drop_first();
    assert(e3.len() == 0);
    assert(e1[0] == events[1]);
    assert(e2[0] == events[2]);
    let m1 = more.drop_first();
    let m2 = m1.drop_first();
    let m3 = m2.drop_first();
    let m4 = m3.drop_first();
    assert(m4.len() == 0);
    assert(m1[0] == more[1]);
    assert(m2[0] == more[2]);
    assert(m3[0] == more[3]);
}

} // verus!
