//! The live sessions, by session id: registering a new one under an id that
//! no other session has, finding one, and dropping one when its hoster goes
//! away.

use vstd::hash_map::StringHashMap;
use vstd::prelude::*;
use crate::cache::CacheTap;
use crate::hoster_manager::{view_of, HosterManager, RequestOutcome, Resolution, StreamStart};
use crate::id_generator::IdGenerator;
use crate::json::json_text;
use crate::protocol::{decoded_metadata, decoded_remote_error, handshake_doc};
use crate::response::{not_found_reply, Reply};
use crate::session::{OutcomeView, ResolutionView, SessionView, StreamStartView};

verus! {

/// The ceiling of the search for a free id: the search goes on while no
/// more than this many candidates were found taken, and is given up at the
/// candidate that is drawn after one more was.
pub const MAX_ID_ATTEMPTS: usize = 1000;

/// What becomes of one candidate id.
#[derive(Clone, Copy, Debug, PartialEq, Eq, Structural)]
pub enum Verdict {
    /// The candidate is free: the session gets it.
    Accept,
    /// The candidate is taken: another one is drawn.
    Retry,
    /// Too many candidates were taken: the search ends without an id.
    GiveUp,
}

/// What becomes of a candidate that is drawn after `retries` others were
/// found taken. Once the ceiling is passed the search is given up, whatever
/// the candidate is.
pub open spec fn verdict(taken: Set<Seq<char>>, candidate: Seq<char>, retries: nat) -> Verdict {
    if retries > MAX_ID_ATTEMPTS {
        Verdict::GiveUp
    } else if taken.contains(candidate) {
        Verdict::Retry
    } else {
        Verdict::Accept
    }
}

/// How the search for a free id ends on a run of candidates.
pub enum Search {
    /// The candidate at this position is free and becomes the id.
    Found(int),
    /// The search is given up at the candidate at this position.
    GivenUp(int),
    /// Every candidate was taken and the ceiling is not passed: the search
    /// goes on with more candidates.
    Open,
}

/// The search from the candidate at position `from` on, which is drawn after
/// `from` others were found taken.
pub open spec fn search(taken: Set<Seq<char>>, candidates: Seq<Seq<char>>, from: nat) -> Search
    decreases candidates.len() - from,
{
    if from >= candidates.len() {
        Search::Open
    } else {
        match verdict(taken, candidates[from as int], from) {
            Verdict::Accept => Search::Found(from as int),
            Verdict::GiveUp => Search::GivenUp(from as int),
            Verdict::Retry => search(taken, candidates, from + 1),
        }
    }
}

/// Candidates that are found taken are passed over.
pub proof fn lemma_search_passes_taken(taken: Set<Seq<char>>, candidates: Seq<Seq<char>>, k: nat)
    requires
        k <= candidates.len(),
        k <= MAX_ID_ATTEMPTS + 1,
        forall|i: int| 0 <= i < k ==> taken.contains(#[trigger] candidates[i]),
    ensures
        search(taken, candidates, 0) == search(taken, candidates, k),
    decreases k,
{
    if k > 0 {
        lemma_search_passes_taken(taken, candidates, (k - 1) as nat);
    }
}

/// With a generator whose every candidate is taken, the search is given up
/// at the candidate drawn after `MAX_ID_ATTEMPTS + 1` others: not before,
/// however many ids are taken, and not after.
pub proof fn lemma_search_gives_up_at_ceiling(taken: Set<Seq<char>>, candidates: Seq<Seq<char>>)
    requires
        forall|i: int| 0 <= i < candidates.len() ==> taken.contains(#[trigger] candidates[i]),
    ensures
        search(taken, candidates, 0) == if candidates.len() > MAX_ID_ATTEMPTS + 1 {
            Search::GivenUp(MAX_ID_ATTEMPTS + 1)
        } else {
            Search::Open
        },
{
    if candidates.len() > MAX_ID_ATTEMPTS + 1 {
        lemma_search_passes_taken(taken, candidates, (MAX_ID_ATTEMPTS + 1) as nat);
    } else {
        lemma_search_passes_taken(taken, candidates, candidates.len());
    }
}

/// Dropping a session is idempotent: a second drop of the same id changes
/// nothing, and neither does the drop of an id that no session has.
pub proof fn lemma_unregister_idempotent(sessions: Map<Seq<char>, SessionView>, id: Seq<char>)
    ensures
        sessions.remove(id).remove(id) == sessions.remove(id),
        !sessions.contains_key(id) ==> sessions.remove(id) == sessions,
{
}

/// A session that was registered: its id, and the message that tells the
/// hoster that id.
#[derive(Debug, PartialEq, Eq)]
pub struct Registration {
    pub id: String,
    pub handshake: String,
}

/// What becomes of one offer of a candidate id.
#[derive(Debug, PartialEq, Eq)]
pub enum Attempt {
    /// The candidate was free: a session is registered under it.
    Registered(Registration),
    /// The candidate is taken: nothing is registered.
    Taken,
    /// The ceiling is passed: nothing is registered, and the search ends.
    GaveUp,
}

/// How the search for a free id ended on a given run of candidates.
#[derive(Debug, PartialEq, Eq)]
pub enum SearchOutcome {
    /// The candidate at `position` was free: a session is registered under
    /// it.
    Found { position: usize, registration: Registration },
    /// The search was given up at the candidate at `position`.
    GivenUp { position: usize },
    /// Every candidate was taken and the ceiling is not passed.
    Open,
}

/// The ids that a run of candidates holds.
pub open spec fn ids_of(candidates: Seq<String>) -> Seq<Seq<char>> {
    candidates.map_values(|candidate: String| candidate@)
}

/// No free id was found within the ceiling.
#[derive(Clone, Copy, Debug, PartialEq, Eq, Structural)]
pub struct OutOfIds {}

/// The sessions, and for each session id the place of its session.
struct Table {
    sessions: Vec<HosterManager>,
    places: StringHashMap<usize>,
}

/// Every session stands at the place that is noted for its id, and every
/// place that is noted holds the session of that id.
spec fn places_fit(sessions: Seq<HosterManager>, places: Map<Seq<char>, usize>) -> bool {
    &&& forall|i: int|
        0 <= i < sessions.len() ==> places.contains_key((#[trigger] sessions[i])@.id)
            && places[sessions[i]@.id] == i
    &&& forall|id: Seq<char>| #[trigger]
        places.contains_key(id) ==> places[id] < sessions.len() && sessions[places[id] as int]@.id
            == id
}

/// The sessions by their ids.
spec fn by_id(sessions: Seq<HosterManager>, places: Map<Seq<char>, usize>) -> Map<
    Seq<char>,
    SessionView,
> {
    Map::new(|id: Seq<char>| places.contains_key(id), |id: Seq<char>| sessions[places[id] as int]@)
}

proof fn lemma_by_id_push(
    sessions: Seq<HosterManager>,
    places: Map<Seq<char>, usize>,
    session: HosterManager,
)
    requires
        places_fit(sessions, places),
        !places.contains_key(session@.id),
        sessions.len() <= usize::MAX,
    ensures
        places_fit(sessions.push(session), places.insert(session@.id, sessions.len() as usize)),
        by_id(sessions.push(session), places.insert(session@.id, sessions.len() as usize))
            == by_id(sessions, places).insert(session@.id, session@),
{
    let grown = sessions.push(session);
    let noted = places.insert(session@.id, sessions.len() as usize);
    assert forall|i: int| 0 <= i < grown.len() implies noted.contains_key(
        (#[trigger] grown[i])@.id,
    ) && noted[grown[i]@.id] == i by {
        if i < sessions.len() {
            assert(places.contains_key(sessions[i]@.id));
        }
    }
    assert(by_id(grown, noted) =~= by_id(sessions, places).insert(session@.id, session@));
}

proof fn lemma_by_id_update(
    sessions: Seq<HosterManager>,
    places: Map<Seq<char>, usize>,
    k: int,
    session: HosterManager,
)
    requires
        places_fit(sessions, places),
        0 <= k < sessions.len(),
        session@.id == sessions[k]@.id,
    ensures
        places_fit(sessions.update(k, session), places),
        by_id(sessions.update(k, session), places) == by_id(sessions, places).insert(
            session@.id,
            session@,
        ),
{
    let changed = sessions.update(k, session);
    assert forall|i: int| 0 <= i < changed.len() implies places.contains_key(
        (#[trigger] changed[i])@.id,
    ) && places[changed[i]@.id] == i by {
        assert(sessions[i]@.id == changed[i]@.id);
    }
    assert(places.contains_key(sessions[k]@.id));
    assert(by_id(changed, places) =~= by_id(sessions, places).insert(session@.id, session@));
}

proof fn lemma_by_id_swap_remove(
    sessions: Seq<HosterManager>,
    places: Map<Seq<char>, usize>,
    k: int,
)
    requires
        places_fit(sessions, places),
        0 <= k < sessions.len(),
    ensures
        ({
            let gone = sessions[k]@.id;
            let rest = sessions.update(k, sessions.last()).drop_last();
            let noted = if k == sessions.len() - 1 {
                places.remove(gone)
            } else {
                places.remove(gone).insert(sessions.last()@.id, k as usize)
            };
            &&& places_fit(rest, noted)
            &&& by_id(rest, noted) == by_id(sessions, places).remove(gone)
        }),
{
    let gone = sessions[k]@.id;
    let moved = sessions.last()@.id;
    let rest = sessions.update(k, sessions.last()).drop_last();
    let noted = if k == sessions.len() - 1 {
        places.remove(gone)
    } else {
        places.remove(gone).insert(moved, k as usize)
    };
    assert(places.contains_key(gone) && places[gone] == k);
    assert(places.contains_key(moved) && places[moved] == sessions.len() - 1);
    assert forall|i: int| 0 <= i < rest.len() implies noted.contains_key((#[trigger] rest[i])@.id)
        && noted[rest[i]@.id] == i by {
        if i != k {
            assert(places.contains_key(sessions[i]@.id) && places[sessions[i]@.id] == i);
        }
    }
    assert(by_id(rest, noted) =~= by_id(sessions, places).remove(gone));
}

/// The live sessions.
pub struct SessionRegistry {
    table: Table,
}

impl View for SessionRegistry {
    type V = Map<Seq<char>, SessionView>;

    closed spec fn view(&self) -> Map<Seq<char>, SessionView> {
        by_id(self.table.sessions@, self.table.places@)
    }
}

fn empty_table() -> (table: Table)
    ensures
        table.sessions@.len() == 0,
        table.places@ == Map::<Seq<char>, usize>::empty(),
{
    Table { sessions: Vec::new(), places: StringHashMap::new() }
}

impl SessionRegistry {
    #[verifier::type_invariant]
    spec fn inv(self) -> bool {
        places_fit(self.table.sessions@, self.table.places@)
    }

    /// A registry without sessions.
    pub fn new() -> (registry: SessionRegistry)
        ensures
            registry@ == Map::<Seq<char>, SessionView>::empty(),
    {
        let registry = SessionRegistry { table: empty_table() };
        assert(registry@ =~= Map::<Seq<char>, SessionView>::empty());
        registry
    }

    /// Where the session with the given id stands.
    fn find(&self, id: &str) -> (found: Option<usize>)
        ensures
            match found {
                Some(i) => {
                    &&& i < self.table.sessions.len()
                    &&& self.table.sessions[i as int]@.id == id@
                    &&& self@.contains_key(id@)
                    &&& self@[id@] == self.table.sessions[i as int]@
                },
                None => !self@.contains_key(id@),
            },
    {
        proof {
            use_type_invariant(self);
        }
        match self.table.places.get(id) {
            Some(place) => Some(*place),
            None => None,
        }
    }

    /// Whether a session has the given id.
    pub fn contains(&self, id: &str) -> (found: bool)
        ensures
            found == self@.contains_key(id@),
    {
        self.find(id).is_some()
    }

    /// The session with the given id. That there is none is an ordinary
    /// outcome.
    pub fn lookup(&self, id: &str) -> (session: Option<&HosterManager>)
        ensures
            match session {
                Some(s) => self@.contains_key(id@) && self@[id@] == s@ && s@.id == id@,
                None => !self@.contains_key(id@),
            },
    {
        match self.find(id) {
            Some(i) => Some(&self.table.sessions[i]),
            None => None,
        }
    }

    /// Decides what becomes of a candidate id that is drawn after `retries`
    /// others were found taken.
    pub fn judge(&self, candidate: &str, retries: usize) -> (decision: Verdict)
        ensures
            decision == verdict(self@.dom(), candidate@, retries as nat),
    {
        if retries > MAX_ID_ATTEMPTS {
            Verdict::GiveUp
        } else if self.contains(candidate) {
            Verdict::Retry
        } else {
            Verdict::Accept
        }
    }

    /// Offers one candidate id, drawn after `retries` others were found
    /// taken. A free candidate becomes the id of a new session, which is
    /// registered; a taken one, or one past the ceiling, changes nothing.
    pub fn offer(&mut self, candidate: String, retries: usize) -> (attempt: Attempt)
        ensures
            match verdict(old(self)@.dom(), candidate@, retries as nat) {
                Verdict::Accept => {
                    &&& attempt matches Attempt::Registered(r)
                    &&& r.id@ == candidate@
                    &&& r.handshake@ == json_text(handshake_doc(candidate@))
                    &&& final(self)@ == old(self)@.insert(candidate@, SessionView::fresh(candidate@))
                },
                Verdict::Retry => attempt is Taken && final(self)@ == old(self)@,
                Verdict::GiveUp => attempt is GaveUp && final(self)@ == old(self)@,
            },
    {
        proof {
            use_type_invariant(&*self);
        }
        match self.judge(candidate.as_str(), retries) {
            Verdict::Accept => {
                let session = HosterManager::new(candidate.clone());
                let handshake = session.handshake();
                let mut table = empty_table();
                std::mem::swap(&mut self.table, &mut table);
                let place = table.sessions.len();
                proof {
                    lemma_by_id_push(table.sessions@, table.places@, session);
                }
                table.places.insert(candidate.clone(), place);
                table.sessions.push(session);
                self.table = table;
                Attempt::Registered(Registration { id: candidate, handshake })
            },
            Verdict::Retry => Attempt::Taken,
            Verdict::GiveUp => Attempt::GaveUp,
        }
    }

    /// Registers a new session under an id that no other session has. Ids
    /// are drawn from `generator` and offered one by one until one is free;
    /// the search is given up at the candidate that is drawn after more
    /// than `MAX_ID_ATTEMPTS` others were found taken. Which ids are drawn
    /// is the generator's matter: while there is no session, the first one
    /// is free.
    pub fn register<G: IdGenerator + ?Sized>(&mut self, generator: &G) -> (registered: Result<
        Registration,
        OutOfIds,
    >)
        ensures
            match registered {
                Ok(r) => {
                    &&& !old(self)@.contains_key(r.id@)
                    &&& final(self)@ == old(self)@.insert(r.id@, SessionView::fresh(r.id@))
                    &&& r.handshake@ == json_text(handshake_doc(r.id@))
                },
                Err(_) => final(self)@ == old(self)@,
            },
            old(self)@.dom() == Set::<Seq<char>>::empty() ==> registered is Ok,
    {
        let mut id = generator.gen();
        let mut retries: usize = 0;
        loop
            invariant
                self@ == old(self)@,
                retries <= MAX_ID_ATTEMPTS + 1,
                retries > 0 ==> old(self)@.dom() != Set::<Seq<char>>::empty(),
            decreases MAX_ID_ATTEMPTS + 1 - retries,
        {
            match self.offer(id, retries) {
                Attempt::Registered(registration) => {
                    return Ok(registration);
                },
                Attempt::GaveUp => {
                    return Err(OutOfIds {  });
                },
                Attempt::Taken => {
                    id = generator.gen();
                    retries = retries + 1;
                },
            }
        }
    }

    /// Runs the search for a free id on a given run of candidates, offered
    /// in order: the first free candidate within the ceiling becomes the id
    /// of a new session, which is registered. Where the search is given up,
    /// or the candidates run out, nothing changes.
    pub fn register_from(&mut self, candidates: &[String]) -> (outcome: SearchOutcome)
        ensures
            match search(old(self)@.dom(), ids_of(candidates@), 0) {
                Search::Found(i) => {
                    &&& outcome matches SearchOutcome::Found { position, registration }
                    &&& position == i
                    &&& registration.id@ == candidates@[i]@
                    &&& registration.handshake@ == json_text(handshake_doc(candidates@[i]@))
                    &&& final(self)@ == old(self)@.insert(
                        candidates@[i]@,
                        SessionView::fresh(candidates@[i]@),
                    )
                },
                Search::GivenUp(i) => {
                    &&& outcome matches SearchOutcome::GivenUp { position }
                    &&& position == i
                    &&& final(self)@ == old(self)@
                },
                Search::Open => outcome is Open && final(self)@ == old(self)@,
            },
    {
        let ghost taken = self@.dom();
        let ghost ids = ids_of(candidates@);
        let mut position: usize = 0;
        while position < candidates.len()
            invariant
                self@ == old(self)@,
                taken == old(self)@.dom(),
                ids == ids_of(candidates@),
                position <= candidates@.len(),
                position <= MAX_ID_ATTEMPTS + 1,
                forall|i: int| 0 <= i < position ==> taken.contains(#[trigger] ids[i]),
            decreases candidates@.len() - position,
        {
            proof {
                lemma_search_passes_taken(taken, ids, position as nat);
            }
            match self.offer(candidates[position].clone(), position) {
                Attempt::Registered(registration) => {
                    return SearchOutcome::Found { position, registration };
                },
                Attempt::GaveUp => {
                    return SearchOutcome::GivenUp { position };
                },
                Attempt::Taken => {
                    position = position + 1;
                },
            }
        }
        proof {
            lemma_search_passes_taken(taken, ids, position as nat);
        }
        SearchOutcome::Open
    }

    /// Drops the session with the given id. Dropping a session that is not
    /// there changes nothing.
    pub fn unregister(&mut self, id: &str)
        ensures
            final(self)@ == old(self)@.remove(id@),
    {
        proof {
            use_type_invariant(&*self);
        }
        match self.find(id) {
            Some(i) => {
                let mut table = empty_table();
                std::mem::swap(&mut self.table, &mut table);
                proof {
                    lemma_by_id_swap_remove(table.sessions@, table.places@, i as int);
                }
                table.sessions.swap_remove(i);
                table.places.remove(id);
                if i < table.sessions.len() {
                    table.places.insert(table.sessions[i].id(), i);
                }
                self.table = table;
            },
            None => {
                assert(self@ =~= old(self)@.remove(id@));
            },
        }
    }

    /// A download request for a file of the session with the given id. For
    /// a session that is not there the answer is 404, and nothing is sent
    /// or changed.
    pub fn process_request(
        &mut self,
        session_id: &str,
        filename: String,
        range_header: String,
    ) -> (outcome: RequestOutcome)
        ensures
            (final(self)@, outcome@) == if old(self)@.contains_key(session_id@) {
                let (session, outcome) = old(self)@[session_id@].request(
                    filename@,
                    range_header@,
                );
                (old(self)@.insert(session_id@, session), outcome)
            } else {
                (old(self)@, OutcomeView::Reply(not_found_reply()))
            },
    {
        proof {
            use_type_invariant(&*self);
        }
        match self.find(session_id) {
            Some(i) => {
                let mut table = empty_table();
                std::mem::swap(&mut self.table, &mut table);
                let outcome = table.sessions[i].process_request(filename, range_header);
                proof {
                    lemma_by_id_update(
                        old(self).table.sessions@,
                        old(self).table.places@,
                        i as int,
                        table.sessions@[i as int],
                    );
                }
                self.table = table;
                outcome
            },
            None => RequestOutcome::Reply(Reply::not_found()),
        }
    }

    /// A control message from the hoster of the session with the given id.
    /// For a session that is not there nothing happens.
    pub fn handle_control_message(&mut self, session_id: &str, message: &[u8]) -> (resolution:
        Option<Resolution>)
        ensures
            (final(self)@, view_of(resolution)) == (match decoded_remote_error(message@) {
                Some((request_id, text)) if old(self)@.contains_key(session_id@) => {
                    let (session, resolution) = old(self)@[session_id@].remote_error(
                        request_id,
                        text,
                    );
                    (old(self)@.insert(session_id@, session), resolution)
                },
                _ => (old(self)@, None::<ResolutionView>),
            }),
    {
        proof {
            use_type_invariant(&*self);
        }
        match self.find(session_id) {
            Some(i) => {
                let mut table = empty_table();
                std::mem::swap(&mut self.table, &mut table);
                let resolution = table.sessions[i].handle_control_message(message);
                proof {
                    lemma_by_id_update(
                        old(self).table.sessions@,
                        old(self).table.places@,
                        i as int,
                        table.sessions@[i as int],
                    );
                    assert(old(self)@.insert(session_id@, old(self)@[session_id@]) =~= old(self)@);
                }
                self.table = table;
                resolution
            },
            None => None,
        }
    }

    /// The metadata of a stream that the hoster of the session with the
    /// given id opened. For a session that is not there nothing happens.
    pub fn handle_conduit(&mut self, session_id: &str, metadata: &[u8]) -> (start: Option<
        StreamStart,
    >)
        ensures
            (final(self)@, view_of(start)) == (match decoded_metadata(metadata@) {
                Some(decoded) if old(self)@.contains_key(session_id@) => {
                    let (session, start) = old(self)@[session_id@].stream(decoded);
                    (old(self)@.insert(session_id@, session), start)
                },
                _ => (old(self)@, None::<StreamStartView>),
            }),
            start matches Some(s) ==> (s.tap matches Some(tap) ==> tap@.wf()),
    {
        proof {
            use_type_invariant(&*self);
        }
        match self.find(session_id) {
            Some(i) => {
                let mut table = empty_table();
                std::mem::swap(&mut self.table, &mut table);
                let start = table.sessions[i].handle_conduit(metadata);
                proof {
                    lemma_by_id_update(
                        old(self).table.sessions@,
                        old(self).table.places@,
                        i as int,
                        table.sessions@[i as int],
                    );
                    assert(old(self)@.insert(session_id@, old(self)@[session_id@]) =~= old(self)@);
                }
                self.table = table;
                start
            },
            None => None,
        }
    }

    /// The end of a tapped stream of the session with the given id: a
    /// complete file goes into that session's cache. Says whether it did.
    pub fn commit(&mut self, session_id: &str, tap: &CacheTap) -> (kept: bool)
        ensures
            final(self)@ == if old(self)@.contains_key(session_id@) {
                old(self)@.insert(session_id@, old(self)@[session_id@].commit(tap@))
            } else {
                old(self)@
            },
            kept == (old(self)@.contains_key(session_id@) && tap@.complete()),
    {
        proof {
            use_type_invariant(&*self);
        }
        match self.find(session_id) {
            Some(i) => {
                let mut table = empty_table();
                std::mem::swap(&mut self.table, &mut table);
                let kept = table.sessions[i].commit(tap);
                proof {
                    lemma_by_id_update(
                        old(self).table.sessions@,
                        old(self).table.places@,
                        i as int,
                        table.sessions@[i as int],
                    );
                }
                self.table = table;
                kept
            },
            None => false,
        }
    }
}

} // verus!
