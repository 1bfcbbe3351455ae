//! The state of a session and the rules by which it changes, as plain
//! values, and what follows from those rules.

use vstd::prelude::*;
use vstd::utf8::encode_utf8;
use crate::cache::{concat, lemma_tap_gathers, TapView, MAX_CACHED_SIZE};
use crate::json::{as_unsigned, json_text, member, member_or_null, Json};
use crate::protocol::{
    file_request_doc, lemma_request_carries_range, remote_error_of, StreamMetadata,
};
use crate::range::range_of;
use crate::text::decimal;
use crate::response::{
    bad_range_reply, bare_reply, cached_reply, failure_reply, stream_head, HeadView, ReplyView,
};

verus! {

/// A pending request, as plain values.
pub struct PendingView {
    pub cache_key: Seq<char>,
    pub ranged: bool,
}

/// A request outcome, as plain values.
pub enum OutcomeView {
    Reply(ReplyView),
    Forward { request_id: u64, message: Seq<char> },
    OutOfRequestIds,
}

/// A resolution, as plain values.
pub struct ResolutionView {
    pub request_id: u64,
    pub reply: ReplyView,
}

/// A stream start, as plain values.
pub struct StreamStartView {
    pub request_id: u64,
    pub head: HeadView,
    pub tap: Option<TapView>,
}

/// The state of a session.
pub struct SessionView {
    /// The session id, fixed when the session is made.
    pub id: Seq<char>,
    /// The id that the next request sent to the hoster gets.
    pub next_request_id: u64,
    /// The requests that were sent and are not answered yet, by request id.
    pub pending: Map<u64, PendingView>,
    /// The files kept, by the name they were asked for under.
    pub cache: Map<Seq<char>, Seq<u8>>,
}

impl SessionView {
    /// Every pending request has an id that was given out already, and no
    /// kept file is larger than the ceiling.
    pub open spec fn wf(self) -> bool {
        &&& forall|k: u64| self.pending.contains_key(k) ==> k < self.next_request_id
        &&& forall|name: Seq<char>|
            self.cache.contains_key(name) ==> (#[trigger] self.cache[name]).len()
                <= MAX_CACHED_SIZE
    }

    /// A session that has sent nothing yet.
    pub open spec fn fresh(id: Seq<char>) -> SessionView {
        SessionView { id, next_request_id: 0, pending: Map::empty(), cache: Map::empty() }
    }

    /// A download request. A `Range` header that cannot be read is refused.
    /// A request for a whole file that is in the cache is answered from
    /// there. Any other request gets the next request id, is noted as
    /// pending under it, and goes to the hoster.
    pub open spec fn request(self, filename: Seq<char>, range_header: Seq<char>) -> (
        SessionView,
        OutcomeView,
    ) {
        match range_of(range_header) {
            Err(_) => (self, OutcomeView::Reply(bad_range_reply())),
            Ok(range) => if range is None && self.cache.contains_key(filename) {
                (self, OutcomeView::Reply(cached_reply(self.cache[filename])))
            } else if self.next_request_id == u64::MAX {
                (self, OutcomeView::OutOfRequestIds)
            } else {
                (
                    SessionView {
                        next_request_id: (self.next_request_id + 1) as u64,
                        pending: self.pending.insert(
                            self.next_request_id,
                            PendingView { cache_key: filename, ranged: range is Some },
                        ),
                        ..self
                    },
                    OutcomeView::Forward {
                        request_id: self.next_request_id,
                        message: json_text(
                            file_request_doc(filename, self.next_request_id, range),
                        ),
                    },
                )
            },
        }
    }

    /// An error that the hoster reports for a request. Where that request is
    /// pending, it is pending no longer and is answered with the error;
    /// where it is not, nothing happens.
    pub open spec fn remote_error(self, request_id: u64, message: Seq<char>) -> (
        SessionView,
        Option<ResolutionView>,
    ) {
        if self.pending.contains_key(request_id) {
            (
                SessionView { pending: self.pending.remove(request_id), ..self },
                Some(ResolutionView { request_id, reply: failure_reply(message) }),
            )
        } else {
            (self, None)
        }
    }

    /// Whether the answer to a pending request is kept for later.
    pub open spec fn caches(pending: PendingView, metadata: StreamMetadata) -> bool {
        !pending.ranged && metadata.size <= MAX_CACHED_SIZE
    }

    /// A data stream that the hoster opens for a request. Where that request
    /// is pending, it is pending no longer and is answered with the stream;
    /// the stream is tapped where a whole file within the ceiling was asked
    /// for. Where the request is not pending, nothing happens.
    pub open spec fn stream(self, metadata: StreamMetadata) -> (
        SessionView,
        Option<StreamStartView>,
    ) {
        if self.pending.contains_key(metadata.request_id) {
            let pending = self.pending[metadata.request_id];
            (
                SessionView { pending: self.pending.remove(metadata.request_id), ..self },
                Some(
                    StreamStartView {
                        request_id: metadata.request_id,
                        head: stream_head(metadata.size, metadata.range),
                        tap: if Self::caches(pending, metadata) {
                            Some(
                                TapView {
                                    key: pending.cache_key,
                                    size: metadata.size,
                                    seen: Seq::empty(),
                                    overrun: false,
                                },
                            )
                        } else {
                            None
                        },
                    },
                ),
            )
        } else {
            (self, None)
        }
    }

    /// The end of a tapped stream: a complete file goes into the cache, an
    /// incomplete one is dropped.
    pub open spec fn commit(self, tap: TapView) -> SessionView {
        if tap.complete() {
            SessionView { cache: self.cache.insert(tap.key, tap.seen), ..self }
        } else {
            self
        }
    }
}

/// What can happen to a session.
pub enum Input {
    /// A download request.
    Request { filename: Seq<char>, range_header: Seq<char> },
    /// The hoster reports an error for a request.
    RemoteError { request_id: u64, message: Seq<char> },
    /// The hoster opens a data stream for a request.
    Stream(StreamMetadata),
    /// A tapped stream comes to its end.
    Commit(TapView),
}

impl Input {
    /// What comes from the library itself is well formed: the ranges that
    /// were read, the taps that were handed out.
    pub open spec fn wf(self) -> bool {
        match self {
            Input::Stream(metadata) => metadata.wf(),
            Input::Commit(tap) => tap.wf(),
            _ => true,
        }
    }
}

impl SessionView {
    /// The session after `input`.
    pub open spec fn after(self, input: Input) -> SessionView {
        match input {
            Input::Request { filename, range_header } => self.request(filename, range_header).0,
            Input::RemoteError { request_id, message } => self.remote_error(request_id, message).0,
            Input::Stream(metadata) => self.stream(metadata).0,
            Input::Commit(tap) => self.commit(tap),
        }
    }

    /// The request id that `input` is given, where it is a request that
    /// goes to the hoster.
    pub open spec fn issues(self, input: Input) -> Option<u64> {
        match input {
            Input::Request { filename, range_header } => match self.request(
                filename,
                range_header,
            ).1 {
                OutcomeView::Forward { request_id, .. } => Some(request_id),
                _ => None,
            },
            _ => None,
        }
    }

    /// The request whose response slot is fulfilled on `input`, where one is.
    pub open spec fn resolves(self, input: Input) -> Option<u64> {
        match input {
            Input::RemoteError { request_id, message } => match self.remote_error(
                request_id,
                message,
            ).1 {
                Some(resolution) => Some(resolution.request_id),
                None => None,
            },
            Input::Stream(metadata) => match self.stream(metadata).1 {
                Some(start) => Some(start.request_id),
                None => None,
            },
            _ => None,
        }
    }

    /// The session after a run of inputs.
    pub open spec fn after_all(self, inputs: Seq<Input>) -> SessionView
        decreases inputs.len(),
    {
        if inputs.len() == 0 {
            self
        } else {
            self.after_all(inputs.drop_last()).after(inputs.last())
        }
    }

    /// The request ids given out over a run of inputs, in the order in which
    /// they are given out.
    pub open spec fn issued(self, inputs: Seq<Input>) -> Seq<u64>
        decreases inputs.len(),
    {
        if inputs.len() == 0 {
            Seq::empty()
        } else {
            match self.after_all(inputs.drop_last()).issues(inputs.last()) {
                Some(request_id) => self.issued(inputs.drop_last()).push(request_id),
                None => self.issued(inputs.drop_last()),
            }
        }
    }

    /// How often the response slot of `request_id` is fulfilled over a run
    /// of inputs.
    pub open spec fn times_resolved(self, inputs: Seq<Input>, request_id: u64) -> nat
        decreases inputs.len(),
    {
        if inputs.len() == 0 {
            0
        } else {
            self.times_resolved(inputs.drop_last(), request_id) + if self.after_all(
                inputs.drop_last(),
            ).resolves(inputs.last()) == Some(request_id) {
                1nat
            } else {
                0nat
            }
        }
    }
}

/// Whatever happens to a session, its pending requests have ids that were
/// given out, its id stays, and its counter never goes back.
pub proof fn lemma_after_keeps_order(session: SessionView, input: Input)
    requires
        session.wf(),
        input.wf(),
    ensures
        session.after(input).wf(),
        session.after(input).id == session.id,
        session.after(input).next_request_id >= session.next_request_id,
{
}

/// Request ids are given out in strictly increasing order, without gaps and
/// without repeats, from the session's counter on: from 0 for a new session.
/// Nothing but a request that goes to the hoster moves the counter.
pub proof fn lemma_request_ids_count_up(session: SessionView, inputs: Seq<Input>)
    ensures
        forall|i: int|
            0 <= i < session.issued(inputs).len() ==> #[trigger] session.issued(inputs)[i]
                == session.next_request_id + i,
        session.after_all(inputs).next_request_id == session.next_request_id + session.issued(
            inputs,
        ).len(),
    decreases inputs.len(),
{
    if inputs.len() > 0 {
        lemma_request_ids_count_up(session, inputs.drop_last());
    }
}

/// The answer that names a pending request resolves it, whichever kind it
/// is: the response slot of that request is fulfilled, and the request is
/// pending no longer. An answer that names no pending request resolves
/// nothing and changes nothing.
pub proof fn lemma_answer_resolves(session: SessionView, input: Input)
    ensures
        match input {
            Input::RemoteError { request_id, .. } => {
                &&& session.pending.contains_key(request_id) ==> session.resolves(input) == Some(
                    request_id,
                ) && session.after(input).pending == session.pending.remove(request_id)
                &&& !session.pending.contains_key(request_id) ==> session.resolves(input) is None
                    && session.after(input) == session
            },
            Input::Stream(metadata) => {
                &&& session.pending.contains_key(metadata.request_id) ==> session.resolves(input)
                    == Some(metadata.request_id) && session.after(input).pending
                    == session.pending.remove(metadata.request_id)
                &&& !session.pending.contains_key(metadata.request_id) ==> session.resolves(input)
                    is None && session.after(input) == session
            },
            _ => session.resolves(input) is None && session.after(input).pending.dom().subset_of(
                session.pending.dom().insert(session.next_request_id),
            ),
        },
{
}

/// No response slot is fulfilled twice: over any run of inputs, a request
/// is resolved once at most, and a request that was answered before the run
/// began is not resolved at all.
pub proof fn lemma_resolved_at_most_once(session: SessionView, inputs: Seq<Input>, request_id: u64)
    requires
        session.wf(),
        forall|i: int| 0 <= i < inputs.len() ==> (#[trigger] inputs[i]).wf(),
    ensures
        session.after_all(inputs).wf(),
        session.after_all(inputs).next_request_id >= session.next_request_id,
        session.times_resolved(inputs, request_id) <= 1,
        session.times_resolved(inputs, request_id) == 1 ==> request_id < session.after_all(
            inputs,
        ).next_request_id && !session.after_all(inputs).pending.contains_key(request_id),
        request_id < session.next_request_id && !session.pending.contains_key(request_id)
            ==> session.times_resolved(inputs, request_id) == 0 && !session.after_all(
            inputs,
        ).pending.contains_key(request_id),
    decreases inputs.len(),
{
    if inputs.len() > 0 {
        lemma_resolved_at_most_once(session, inputs.drop_last(), request_id);
        lemma_after_keeps_order(session.after_all(inputs.drop_last()), inputs.last());
        lemma_answer_resolves(session.after_all(inputs.drop_last()), inputs.last());
    }
}

/// An error that the hoster reports for a pending request resolves it with
/// what the error says: for the message `{"error":{"message":m},"id":r}`,
/// `m` a string and `r` pending, the slot of `r` gets a 404 whose body is
/// the text `m`, `r` is pending no longer, and every other pending request,
/// the cache and the counter are as they were.
pub proof fn lemma_error_reply_is_the_message(
    session: SessionView,
    doc: Json,
    request_id: u64,
    text: Seq<char>,
)
    requires
        as_unsigned(member_or_null(doc, "id"@)) == Some(request_id),
        member(member_or_null(doc, "error"@), "message"@) == Some(Json::Text(text)),
        session.pending.contains_key(request_id),
    ensures
        remote_error_of(doc) == Some((request_id, text)),
        session.remote_error(request_id, text) == (
            SessionView { pending: session.pending.remove(request_id), ..session },
            Some(ResolutionView { request_id, reply: bare_reply(404, encode_utf8(text)) }),
        ),
{
}

/// Whether `input` is an answer of the hoster to the request with the given
/// id: an error reported for it, or a stream opened for it.
pub open spec fn answers(input: Input, request_id: u64) -> bool {
    match input {
        Input::RemoteError { request_id: named, .. } => named == request_id,
        Input::Stream(metadata) => metadata.request_id == request_id,
        _ => false,
    }
}

/// A pending request is resolved exactly once by the first answer that
/// names it, whichever kind that answer is and whatever else happens in
/// between; later answers that name it resolve nothing. While no answer
/// names it, it stays pending and is not resolved.
pub proof fn lemma_answered_exactly_once(session: SessionView, inputs: Seq<Input>, request_id: u64)
    requires
        session.wf(),
        forall|i: int| 0 <= i < inputs.len() ==> (#[trigger] inputs[i]).wf(),
        session.pending.contains_key(request_id),
    ensures
        (exists|i: int| 0 <= i < inputs.len() && answers(#[trigger] inputs[i], request_id)) ==> {
            &&& session.times_resolved(inputs, request_id) == 1
            &&& !session.after_all(inputs).pending.contains_key(request_id)
        },
        !(exists|i: int| 0 <= i < inputs.len() && answers(#[trigger] inputs[i], request_id)) ==> {
            &&& session.times_resolved(inputs, request_id) == 0
            &&& session.after_all(inputs).pending.contains_key(request_id)
        },
    decreases inputs.len(),
{
    if inputs.len() > 0 {
        let before = inputs.drop_last();
        let last = inputs.last();
        lemma_answered_exactly_once(session, before, request_id);
        lemma_resolved_at_most_once(session, before, request_id);
        lemma_resolved_at_most_once(session, inputs, request_id);
        lemma_answer_resolves(session.after_all(before), last);
        let answered_before = exists|i: int|
            0 <= i < before.len() && answers(#[trigger] before[i], request_id);
        if answered_before {
            let i = choose|i: int| 0 <= i < before.len() && answers(#[trigger] before[i], request_id);
            assert(answers(inputs[i], request_id));
        } else if answers(last, request_id) {
            assert(answers(inputs[inputs.len() - 1], request_id));
        } else {
            assert forall|i: int| 0 <= i < inputs.len() implies !answers(
                #[trigger] inputs[i],
                request_id,
            ) by {
                if i < before.len() {
                    assert(!answers(before[i], request_id));
                }
            }
        }
    }
}

/// Without a `Range` header no range goes out and none comes back: the
/// request that goes to the hoster has no `range` member, and the stream
/// that answers it without a range is a 200 whose `Content-Length` is the
/// declared size, with no `Content-Range`.
pub proof fn lemma_no_range_out_and_back(session: SessionView, filename: Seq<char>, size: u64)
    ensures
        match session.request(filename, Seq::empty()).1 {
            OutcomeView::Forward { request_id, message } => {
                &&& message == json_text(file_request_doc(filename, request_id, None))
                &&& member(
                    member_or_null(file_request_doc(filename, request_id, None), "params"@),
                    "range"@,
                ) is None
            },
            OutcomeView::Reply(reply) => session.cache.contains_key(filename) && reply
                == cached_reply(session.cache[filename]),
            OutcomeView::OutOfRequestIds => session.next_request_id == u64::MAX,
        },
        stream_head(size, None).status == 200,
        stream_head(size, None).headers[0] == ("Content-Length"@, decimal(size as nat)),
        forall|i: int|
            0 <= i < stream_head(size, None).headers.len() ==> (
            #[trigger] stream_head(size, None).headers[i]).0 != "Content-Range"@,
{
    lemma_request_carries_range(filename, session.next_request_id, None);
    reveal_strlit("Content-Range");
    reveal_strlit("Content-Length");
    reveal_strlit("Accept-Ranges");
    reveal_strlit("Content-Type");
    assert("Content-Length"@.len() != "Content-Range"@.len());
    assert("Accept-Ranges"@[0] != "Content-Range"@[0]);
    assert("Content-Type"@.len() != "Content-Range"@.len());
}

/// A whole file that is small enough is asked of the hoster once. The first
/// request for it goes to the hoster; once the answering stream has passed
/// through the tap, however it was cut into chunks, a second request for the
/// same file is answered from the cache, with the same bytes, and nothing
/// is sent.
pub proof fn lemma_second_request_from_cache(
    session: SessionView,
    filename: Seq<char>,
    chunks: Seq<Seq<u8>>,
)
    requires
        session.wf(),
        !session.cache.contains_key(filename),
        session.next_request_id < u64::MAX,
        concat(chunks).len() <= MAX_CACHED_SIZE,
    ensures
        ({
            let request_id = session.next_request_id;
            let metadata = StreamMetadata {
                request_id,
                size: concat(chunks).len() as u64,
                range: None,
            };
            let (asked, first) = session.request(filename, Seq::empty());
            let (streaming, start) = asked.stream(metadata);
            &&& first is Forward
            &&& first->request_id == request_id
            &&& start is Some
            &&& start->0.request_id == request_id
            &&& start->0.tap is Some
            &&& start->0.tap->0.observe_all(chunks).complete()
            &&& {
                let kept = streaming.commit(start->0.tap->0.observe_all(chunks));
                kept.request(filename, Seq::empty()) == (
                    kept,
                    OutcomeView::Reply(cached_reply(concat(chunks))),
                )
            }
        }),
{
    lemma_tap_gathers(filename, concat(chunks).len() as u64, chunks);
}

} // verus!
