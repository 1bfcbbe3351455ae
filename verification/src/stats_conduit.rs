//! The counting stage of the pipe between a hoster's data stream and an
//! HTTP response body.
//!
//! A stage has two faces. Towards the sink it is a producer: it is granted
//! credit, hands on items, and is told when the sink cancels. Towards the
//! source it is a consumer: it passes credit on, takes items, and is told
//! when the source ends. The stage here holds no items: it hands each one
//! on while it has credit for one, and counts what passes.

use vstd::prelude::*;

verus! {

/// What happens at a stage.
#[derive(Clone, Copy, Debug, PartialEq, Eq, Structural)]
pub enum StageEvent {
    /// The sink grants credit for this many more items.
    Request(usize),
    /// The source hands over an item of this many bytes.
    Write(usize),
    /// The source has no more items.
    End,
    /// The sink wants no more items.
    Cancel,
}

/// What a stage does about an event.
#[derive(Clone, Copy, Debug, PartialEq, Eq, Structural)]
pub enum StageAction {
    /// Grant the source credit for this many more items.
    RequestUpstream(usize),
    /// Hand the item on to the sink.
    Emit,
    /// Throw the item away: there was no credit for it, or the stream is
    /// over.
    Discard,
    /// Tell the sink that the stream has ended.
    EndDownstream,
    /// Tell the source that the sink has cancelled, after this many bytes
    /// were handed on.
    CancelUpstream(u64),
    /// Do nothing.
    Nothing,
}

/// The state of a stage.
pub struct StageView {
    /// The request whose answer passes through the stage.
    pub request_id: u64,
    /// The credit that was granted and is not used up yet.
    pub credit: u64,
    /// The items handed on so far.
    pub items: u64,
    /// The bytes handed on so far.
    pub bytes: u64,
    /// Whether the source has ended.
    pub ended: bool,
    /// Whether the sink has cancelled.
    pub cancelled: bool,
}

/// The sum of two counters, held at the largest value where it would pass it.
pub open spec fn capped_sum(a: u64, b: int) -> u64 {
    if a + b > u64::MAX {
        u64::MAX
    } else {
        (a + b) as u64
    }
}

impl StageView {
    /// A stage through which nothing has passed.
    pub open spec fn fresh(request_id: u64) -> StageView {
        StageView { request_id, credit: 0, items: 0, bytes: 0, ended: false, cancelled: false }
    }

    /// Neither end is over.
    pub open spec fn live(self) -> bool {
        !self.ended && !self.cancelled
    }

    /// What one event does to the stage, and what the stage does about it.
    /// Credit is passed on as it comes. An item is handed on where there is
    /// credit for it, which it uses up. The end of the stream and the
    /// cancellation are passed on once each.
    pub open spec fn step(self, event: StageEvent) -> (StageView, StageAction) {
        match event {
            StageEvent::Request(n) => if self.live() {
                (
                    StageView { credit: capped_sum(self.credit, n as int), ..self },
                    StageAction::RequestUpstream(n),
                )
            } else {
                (self, StageAction::Nothing)
            },
            StageEvent::Write(len) => if self.live() && self.credit > 0 {
                (
                    StageView {
                        credit: (self.credit - 1) as u64,
                        items: capped_sum(self.items, 1),
                        bytes: capped_sum(self.bytes, len as int),
                        ..self
                    },
                    StageAction::Emit,
                )
            } else {
                (self, StageAction::Discard)
            },
            StageEvent::End => if !self.ended {
                (StageView { ended: true, ..self }, StageAction::EndDownstream)
            } else {
                (self, StageAction::Nothing)
            },
            StageEvent::Cancel => if !self.cancelled {
                (StageView { cancelled: true, ..self }, StageAction::CancelUpstream(self.bytes))
            } else {
                (self, StageAction::Nothing)
            },
        }
    }

    /// The stage after a run of events.
    pub open spec fn run(self, events: Seq<StageEvent>) -> StageView
        decreases events.len(),
    {
        if events.len() == 0 {
            self
        } else {
            self.run(events.drop_last()).step(events.last()).0
        }
    }

    /// What the stage does about each event of a run.
    pub open spec fn actions(self, events: Seq<StageEvent>) -> Seq<StageAction>
        decreases events.len(),
    {
        if events.len() == 0 {
            Seq::empty()
        } else {
            self.actions(events.drop_last()).push(
                self.run(events.drop_last()).step(events.last()).1,
            )
        }
    }
}

/// The credit that a run of events grants.
pub open spec fn granted(events: Seq<StageEvent>) -> nat
    decreases events.len(),
{
    if events.len() == 0 {
        0
    } else {
        granted(events.drop_last()) + match events.last() {
            StageEvent::Request(n) => n as nat,
            _ => 0,
        }
    }
}

/// How often `action` stands in `actions`.
pub open spec fn count(actions: Seq<StageAction>, action: StageAction) -> nat
    decreases actions.len(),
{
    if actions.len() == 0 {
        0
    } else {
        count(actions.drop_last(), action) + if actions.last() == action {
            1nat
        } else {
            0nat
        }
    }
}

/// How often a cancellation is passed on in `actions`.
pub open spec fn cancellations(actions: Seq<StageAction>) -> nat
    decreases actions.len(),
{
    if actions.len() == 0 {
        0
    } else {
        cancellations(actions.drop_last()) + if actions.last() is CancelUpstream {
            1nat
        } else {
            0nat
        }
    }
}

/// Flow control: whatever the events and their order, a stage hands on no
/// more items than it holds credit for at the start and is granted on the
/// way. What is left of the credit is never more than what was not used.
pub proof fn lemma_emits_within_credit(stage: StageView, events: Seq<StageEvent>)
    ensures
        count(stage.actions(events), StageAction::Emit) + stage.run(events).credit <= stage.credit
            + granted(events),
    decreases events.len(),
{
    if events.len() > 0 {
        lemma_emits_within_credit(stage, events.drop_last());
        assert(stage.actions(events).drop_last() == stage.actions(events.drop_last()));
    }
}

/// The end of the stream is passed on once, at the first time the source
/// ends, and the cancellation once, at the first time the sink cancels.
pub proof fn lemma_end_and_cancel_once(stage: StageView, events: Seq<StageEvent>)
    ensures
        count(stage.actions(events), StageAction::EndDownstream) == if !stage.ended
            && events.contains(StageEvent::End) {
            1nat
        } else {
            0nat
        },
        cancellations(stage.actions(events)) == if !stage.cancelled && events.contains(
            StageEvent::Cancel,
        ) {
            1nat
        } else {
            0nat
        },
        stage.run(events).ended == (stage.ended || events.contains(StageEvent::End)),
        stage.run(events).cancelled == (stage.cancelled || events.contains(StageEvent::Cancel)),
    decreases events.len(),
{
    if events.len() > 0 {
        let before = events.drop_last();
        lemma_end_and_cancel_once(stage, before);
        assert(stage.actions(events).drop_last() == stage.actions(before));
        assert forall|e: StageEvent| events.contains(e) <==> (before.contains(e) || events.last()
            == e) by {
            if events.contains(e) {
                let i = choose|i: int| 0 <= i < events.len() && events[i] == e;
                if i < before.len() {
                    assert(before[i] == e);
                }
            }
        }
    }
}

/// The counting stage in the pipe of one response.
#[derive(Debug)]
pub struct StatsConduit {
    request_id: u64,
    credit: u64,
    items: u64,
    bytes: u64,
    ended: bool,
    cancelled: bool,
}

impl View for StatsConduit {
    type V = StageView;

    closed spec fn view(&self) -> StageView {
        StageView {
            request_id: self.request_id,
            credit: self.credit,
            items: self.items,
            bytes: self.bytes,
            ended: self.ended,
            cancelled: self.cancelled,
        }
    }
}

fn capped_add(a: u64, b: usize) -> (sum: u64)
    ensures
        sum == capped_sum(a, b as int),
{
    let b = b as u64;
    if b > u64::MAX - a {
        u64::MAX
    } else {
        a + b
    }
}

impl StatsConduit {
    /// A stage for the response to the given request.
    pub fn new(request_id: u64) -> (stage: StatsConduit)
        ensures
            stage@ == StageView::fresh(request_id),
    {
        StatsConduit { request_id, credit: 0, items: 0, bytes: 0, ended: false, cancelled: false }
    }

    /// The sink grants credit for `num_items` more items.
    pub fn request(&mut self, num_items: usize) -> (action: StageAction)
        ensures
            (final(self)@, action) == old(self)@.step(StageEvent::Request(num_items)),
    {
        if !self.ended && !self.cancelled {
            self.credit = capped_add(self.credit, num_items);
            StageAction::RequestUpstream(num_items)
        } else {
            StageAction::Nothing
        }
    }

    /// The source hands over an item of `len` bytes.
    pub fn write(&mut self, len: usize) -> (action: StageAction)
        ensures
            (final(self)@, action) == old(self)@.step(StageEvent::Write(len)),
    {
        if !self.ended && !self.cancelled && self.credit > 0 {
            self.credit = self.credit - 1;
            self.items = capped_add(self.items, 1);
            self.bytes = capped_add(self.bytes, len);
            StageAction::Emit
        } else {
            StageAction::Discard
        }
    }

    /// The source has no more items.
    pub fn end(&mut self) -> (action: StageAction)
        ensures
            (final(self)@, action) == old(self)@.step(StageEvent::End),
    {
        if !self.ended {
            self.ended = true;
            StageAction::EndDownstream
        } else {
            StageAction::Nothing
        }
    }

    /// The sink wants no more items.
    pub fn cancel(&mut self) -> (action: StageAction)
        ensures
            (final(self)@, action) == old(self)@.step(StageEvent::Cancel),
    {
        if !self.cancelled {
            self.cancelled = true;
            StageAction::CancelUpstream(self.bytes)
        } else {
            StageAction::Nothing
        }
    }

    /// Takes any event.
    pub fn handle(&mut self, event: StageEvent) -> (action: StageAction)
        ensures
            (final(self)@, action) == old(self)@.step(event),
    {
        match event {
            StageEvent::Request(n) => self.request(n),
            StageEvent::Write(len) => self.write(len),
            StageEvent::End => self.end(),
            StageEvent::Cancel => self.cancel(),
        }
    }

    /// The request whose answer passes through the stage.
    pub fn request_id(&self) -> (request_id: u64)
        ensures
            request_id == self@.request_id,
    {
        self.request_id
    }

    /// The items handed on so far.
    pub fn total_items(&self) -> (items: u64)
        ensures
            items == self@.items,
    {
        self.items
    }

    /// The bytes handed on so far.
    pub fn total_bytes(&self) -> (bytes: u64)
        ensures
            bytes == self@.bytes,
    {
        self.bytes
    }

    /// The credit that was granted and is not used up yet.
    pub fn credit(&self) -> (credit: u64)
        ensures
            credit == self@.credit,
    {
        self.credit
    }
}

} // verus!
