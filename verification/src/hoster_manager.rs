//! One session: the state kept for one hoster connection, and what it
//! decides on each download request and on each event from the hoster.
//!
//! The session sends and receives nothing itself. Each function takes what
//! happened and says what is to be done: the message to send, the response
//! to give, the slot to fulfil.

use std::collections::HashMap;
use vstd::hash_map::StringHashMap;
use vstd::prelude::*;
use vstd::std_specs::hash::*;
use crate::cache::{CacheTap, MAX_CACHED_SIZE};
use crate::json::json_text;
use crate::protocol::{
    decode_metadata, decode_remote_error, decoded_metadata, decoded_remote_error,
    file_request_message, handshake_doc, handshake_message, RemoteError, StreamMetadata,
};
use crate::range::parse_range_header;
use crate::response::{response_head, Reply, ResponseHead};
use crate::session::{OutcomeView, PendingView, ResolutionView, SessionView, StreamStartView};

verus! {

broadcast use group_hash_axioms;

/// A request that was sent to the hoster and is not answered yet.
#[derive(Debug, PartialEq, Eq)]
pub struct PendingRequest {
    /// The file name as the downloader gave it: the key under which the file
    /// is cached.
    pub cache_key: String,
    /// Whether the downloader asked for a range. Only whole files are cached.
    pub ranged: bool,
}

impl View for PendingRequest {
    type V = PendingView;

    open spec fn view(&self) -> PendingView {
        PendingView { cache_key: self.cache_key@, ranged: self.ranged }
    }
}

/// What is to be done about a download request.
#[derive(Debug, PartialEq, Eq)]
pub enum RequestOutcome {
    /// Answer at once; nothing is sent to the hoster.
    Reply(Reply),
    /// Send `message` to the hoster, and keep the downloader's response slot
    /// under `request_id` until the hoster answers.
    Forward { request_id: u64, message: String },
    /// Every request id has been used; nothing is sent.
    OutOfRequestIds,
}

impl View for RequestOutcome {
    type V = OutcomeView;

    open spec fn view(&self) -> OutcomeView {
        match self {
            RequestOutcome::Reply(reply) => OutcomeView::Reply(reply@),
            RequestOutcome::Forward { request_id, message } => OutcomeView::Forward {
                request_id: *request_id,
                message: message@,
            },
            RequestOutcome::OutOfRequestIds => OutcomeView::OutOfRequestIds,
        }
    }
}

/// The response slot kept under `request_id` is to be fulfilled with `reply`.
#[derive(Debug, PartialEq, Eq)]
pub struct Resolution {
    pub request_id: u64,
    pub reply: Reply,
}

impl View for Resolution {
    type V = ResolutionView;

    open spec fn view(&self) -> ResolutionView {
        ResolutionView { request_id: self.request_id, reply: self.reply@ }
    }
}

/// The response slot kept under `request_id` is to be fulfilled with a
/// response that has `head` as its status and headers and the stream as its
/// body. Where `tap` is there, the stream's chunks are to pass through it.
#[derive(Debug)]
pub struct StreamStart {
    pub request_id: u64,
    pub head: ResponseHead,
    pub tap: Option<CacheTap>,
}

impl View for StreamStart {
    type V = StreamStartView;

    open spec fn view(&self) -> StreamStartView {
        StreamStartView {
            request_id: self.request_id,
            head: self.head@,
            tap: view_of(self.tap),
        }
    }
}

/// The view of an optional value.
pub open spec fn view_of<T: View>(value: Option<T>) -> Option<T::V> {
    match value {
        Some(inner) => Some(inner@),
        None => None,
    }
}

/// The session of one hoster.
pub struct HosterManager {
    id: String,
    next_request_id: u64,
    pending: HashMap<u64, PendingRequest>,
    cache: StringHashMap<Vec<u8>>,
}

impl View for HosterManager {
    type V = SessionView;

    closed spec fn view(&self) -> SessionView {
        SessionView {
            id: self.id@,
            next_request_id: self.next_request_id,
            pending: self.pending@.map_values(|p: PendingRequest| p@),
            cache: self.cache@.map_values(|c: Vec<u8>| c@),
        }
    }
}

impl HosterManager {
    #[verifier::type_invariant]
    spec fn inv(self) -> bool {
        &&& forall|k: u64| self.pending@.contains_key(k) ==> k < self.next_request_id
        &&& forall|name: Seq<char>|
            self.cache@.contains_key(name) ==> (#[trigger] self.cache@[name])@.len()
                <= MAX_CACHED_SIZE
    }

    proof fn lemma_view_wf(self)
        requires
            self.inv(),
        ensures
            self@.wf(),
    {
    }

    /// A session under the given id, with nothing sent yet.
    pub fn new(id: String) -> (session: HosterManager)
        ensures
            session@ == SessionView::fresh(id@),
    {
        let session = HosterManager {
            id,
            next_request_id: 0,
            pending: HashMap::new(),
            cache: StringHashMap::new(),
        };
        assert(session@.pending =~= Map::empty());
        assert(session@.cache =~= Map::empty());
        session
    }

    /// The session id.
    pub fn id(&self) -> (id: String)
        ensures
            id@ == self@.id,
    {
        self.id.clone()
    }

    /// Whether `id` is the session id.
    pub fn has_id(&self, id: &String) -> (same: bool)
        ensures
            same == (self@.id == id@),
    {
        self.id == *id
    }

    /// The message that opens the session: it tells the hoster the session
    /// id, and is to be sent before any other.
    pub fn handshake(&self) -> (message: String)
        ensures
            message@ == json_text(handshake_doc(self@.id)),
    {
        handshake_message(self.id.as_str())
    }

    /// The id that the next request sent to the hoster gets. Looking at it
    /// hands out nothing.
    pub fn peek_request_id(&self) -> (request_id: u64)
        ensures
            request_id == self@.next_request_id,
    {
        self.next_request_id
    }

    /// Hands out the next request id and moves the counter on; `None` once
    /// every id has been handed out.
    fn next_request_id(&mut self) -> (handed: Option<u64>)
        ensures
            match handed {
                Some(request_id) => {
                    &&& request_id == old(self)@.next_request_id
                    &&& request_id < u64::MAX
                    &&& final(self)@ == (SessionView {
                        next_request_id: (request_id + 1) as u64,
                        ..old(self)@
                    })
                },
                None => old(self)@.next_request_id == u64::MAX && final(self)@ == old(self)@,
            },
    {
        proof {
            use_type_invariant(&*self);
        }
        if self.next_request_id == u64::MAX {
            None
        } else {
            let id = self.next_request_id;
            self.next_request_id = id + 1;
            Some(id)
        }
    }

    /// Whether a request with the given id was sent and is not answered yet.
    pub fn is_pending(&self, request_id: u64) -> (pending: bool)
        ensures
            pending == self@.pending.contains_key(request_id),
    {
        self.pending.contains_key(&request_id)
    }

    /// The kept content of the file that was asked for under `filename`.
    pub fn cached(&self, filename: &str) -> (content: Option<&Vec<u8>>)
        ensures
            match content {
                Some(bytes) => self@.cache.contains_key(filename@) && self@.cache[filename@]
                    == bytes@,
                None => !self@.cache.contains_key(filename@),
            },
    {
        self.cache.get(filename)
    }

    /// Decides what is to be done about a request for `filename` with the
    /// given `Range` header, empty where the downloader sent none.
    pub fn process_request(&mut self, filename: String, range_header: String) -> (outcome:
        RequestOutcome)
        ensures
            (final(self)@, outcome@) == old(self)@.request(filename@, range_header@),
            old(self)@.wf(),
            final(self)@.wf(),
    {
        proof {
            use_type_invariant(&*self);
            self.lemma_view_wf();
        }
        let range = match parse_range_header(range_header.as_str()) {
            Ok(range) => range,
            Err(_) => { return RequestOutcome::Reply(Reply::bad_range()); },
        };
        if range.is_none() {
            match self.cache.get(filename.as_str()) {
                Some(content) => {
                    let body = content.clone();
                    return RequestOutcome::Reply(Reply::cached(body));
                },
                None => {},
            }
        }
        let request_id = match self.next_request_id() {
            Some(request_id) => request_id,
            None => { return RequestOutcome::OutOfRequestIds; },
        };
        proof {
            use_type_invariant(&*self);
        }
        let message = file_request_message(filename.as_str(), request_id, range);
        let ghost key = filename@;
        let mut pending: HashMap<u64, PendingRequest> = HashMap::new();
        std::mem::swap(&mut self.pending, &mut pending);
        pending.insert(request_id, PendingRequest { cache_key: filename, ranged: range.is_some() });
        self.pending = pending;
        assert(self@.pending =~= old(self)@.pending.insert(
            request_id,
            PendingView { cache_key: key, ranged: range is Some },
        ));
        RequestOutcome::Forward { request_id, message }
    }

    /// Takes an error that the hoster reported, and says which response slot
    /// is to be fulfilled with it, if any is.
    pub fn fail_request(&mut self, error: &RemoteError) -> (resolution: Option<Resolution>)
        ensures
            (final(self)@, view_of(resolution)) == old(self)@.remote_error(
                error.request_id,
                error.message@,
            ),
            old(self)@.wf(),
            final(self)@.wf(),
    {
        proof {
            use_type_invariant(&*self);
            self.lemma_view_wf();
        }
        let mut pending: HashMap<u64, PendingRequest> = HashMap::new();
        std::mem::swap(&mut self.pending, &mut pending);
        let removed = pending.remove(&error.request_id);
        self.pending = pending;
        match removed {
            Some(_) => {
                assert(self@.pending =~= old(self)@.pending.remove(error.request_id));
                Some(
                    Resolution {
                        request_id: error.request_id,
                        reply: Reply::failure(error.message.as_str()),
                    },
                )
            },
            None => {
                assert(self@.pending =~= old(self)@.pending);
                None
            },
        }
    }

    /// Takes a control message from the hoster. A message that reports an
    /// error for a pending request resolves that request; any other message
    /// changes nothing.
    pub fn handle_control_message(&mut self, message: &[u8]) -> (resolution: Option<Resolution>)
        ensures
            (final(self)@, view_of(resolution)) == (match decoded_remote_error(message@) {
                Some((request_id, text)) => old(self)@.remote_error(request_id, text),
                None => (old(self)@, None),
            }),
            old(self)@.wf(),
            final(self)@.wf(),
    {
        proof {
            use_type_invariant(&*self);
            self.lemma_view_wf();
        }
        match decode_remote_error(message) {
            Some(error) => self.fail_request(&error),
            None => None,
        }
    }

    /// Takes the metadata of a stream that the hoster opened, and says which
    /// response slot is to be fulfilled with the stream, if any is.
    pub fn open_stream(&mut self, metadata: StreamMetadata) -> (start: Option<StreamStart>)
        requires
            metadata.wf(),
        ensures
            (final(self)@, view_of(start)) == old(self)@.stream(metadata),
            old(self)@.wf(),
            final(self)@.wf(),
            start matches Some(s) ==> (s.tap matches Some(tap) ==> tap@.wf()),
    {
        proof {
            use_type_invariant(&*self);
            self.lemma_view_wf();
        }
        let mut pending: HashMap<u64, PendingRequest> = HashMap::new();
        std::mem::swap(&mut self.pending, &mut pending);
        let removed = pending.remove(&metadata.request_id);
        self.pending = pending;
        match removed {
            Some(request) => {
                assert(self@.pending =~= old(self)@.pending.remove(metadata.request_id));
                let head = response_head(metadata.size, metadata.range);
                let tap = if !request.ranged && metadata.size <= MAX_CACHED_SIZE {
                    Some(CacheTap::new(request.cache_key, metadata.size))
                } else {
                    None
                };
                Some(StreamStart { request_id: metadata.request_id, head, tap })
            },
            None => {
                assert(self@.pending =~= old(self)@.pending);
                None
            },
        }
    }

    /// Takes the bytes that came beside a new stream. Metadata that names a
    /// pending request resolves that request; metadata that cannot be read
    /// changes nothing.
    pub fn handle_conduit(&mut self, metadata: &[u8]) -> (start: Option<StreamStart>)
        ensures
            (final(self)@, view_of(start)) == (match decoded_metadata(metadata@) {
                Some(decoded) => old(self)@.stream(decoded),
                None => (old(self)@, None),
            }),
            old(self)@.wf(),
            final(self)@.wf(),
            start matches Some(s) ==> (s.tap matches Some(tap) ==> tap@.wf()),
    {
        proof {
            use_type_invariant(&*self);
            self.lemma_view_wf();
        }
        match decode_metadata(metadata) {
            Some(decoded) => self.open_stream(decoded),
            None => None,
        }
    }

    /// Takes a tap back at the end of its stream, and keeps the file where
    /// the tap is complete. Says whether it did.
    pub fn commit(&mut self, tap: &CacheTap) -> (kept: bool)
        ensures
            final(self)@ == old(self)@.commit(tap@),
            kept == tap@.complete(),
            tap@.wf(),
            old(self)@.wf(),
            final(self)@.wf(),
    {
        proof {
            use_type_invariant(&*self);
            self.lemma_view_wf();
        }
        if tap.is_complete() {
            let content = tap.seen().clone();
            let key = tap.key().clone();
            let mut cache: StringHashMap<Vec<u8>> = StringHashMap::new();
            std::mem::swap(&mut self.cache, &mut cache);
            cache.insert(key, content);
            self.cache = cache;
            assert(self@.cache =~= old(self)@.cache.insert(tap@.key, tap@.seen));
            true
        } else {
            false
        }
    }
}

} // verus!
