//! The tap that gathers a file's bytes as they stream by, so that a small
//! file can be kept and served again without asking the hoster.

use vstd::prelude::*;

verus! {

/// The largest file that is kept: 20 MiB.
pub const MAX_CACHED_SIZE: u64 = 20 * 1024 * 1024;

/// What a tap holds: the path the file was asked for under, its declared
/// size, the bytes seen so far, and whether more bytes came than were
/// declared.
pub struct TapView {
    pub key: Seq<char>,
    pub size: u64,
    pub seen: Seq<u8>,
    pub overrun: bool,
}

impl TapView {
    /// A tap is set up only for files within the ceiling, and never holds
    /// more than the declared size.
    pub open spec fn wf(self) -> bool {
        self.size <= MAX_CACHED_SIZE && self.seen.len() <= self.size
    }

    /// All declared bytes have been seen, and no more.
    pub open spec fn complete(self) -> bool {
        !self.overrun && self.seen.len() == self.size
    }

    /// The tap after one more chunk. A chunk that would go past the declared
    /// size is not taken, and marks the tap as overrun for good.
    pub open spec fn observe(self, chunk: Seq<u8>) -> TapView {
        if !self.overrun && self.seen.len() + chunk.len() <= self.size {
            TapView { seen: self.seen + chunk, ..self }
        } else {
            TapView { overrun: true, ..self }
        }
    }

    /// The tap after a run of chunks.
    pub open spec fn observe_all(self, chunks: Seq<Seq<u8>>) -> TapView
        decreases chunks.len(),
    {
        if chunks.len() == 0 {
            self
        } else {
            self.observe_all(chunks.drop_last()).observe(chunks.last())
        }
    }
}

/// All the bytes of a run of chunks, in order.
pub open spec fn concat(chunks: Seq<Seq<u8>>) -> Seq<u8>
    decreases chunks.len(),
{
    if chunks.len() == 0 {
        Seq::empty()
    } else {
        concat(chunks.drop_last()) + chunks.last()
    }
}

/// A fresh tap that is fed a file of exactly the declared size, however the
/// bytes are cut into chunks, ends up complete and holds the file.
pub proof fn lemma_tap_gathers(key: Seq<char>, size: u64, chunks: Seq<Seq<u8>>)
    requires
        concat(chunks).len() <= size,
    ensures
        (TapView { key, size, seen: Seq::empty(), overrun: false }).observe_all(chunks)
            == (TapView { key, size, seen: concat(chunks), overrun: false }),
    decreases chunks.len(),
{
    if chunks.len() > 0 {
        lemma_tap_gathers(key, size, chunks.drop_last());
    }
}

/// A byte-gathering tap on one stream.
#[derive(Debug)]
pub struct CacheTap {
    key: String,
    size: u64,
    seen: Vec<u8>,
    overrun: bool,
}

impl View for CacheTap {
    type V = TapView;

    closed spec fn view(&self) -> TapView {
        TapView { key: self.key@, size: self.size, seen: self.seen@, overrun: self.overrun }
    }
}

impl CacheTap {
    #[verifier::type_invariant]
    spec fn inv(self) -> bool {
        self@.wf()
    }

    /// A tap that has seen nothing yet.
    pub(crate) fn new(key: String, size: u64) -> (tap: CacheTap)
        requires
            size <= MAX_CACHED_SIZE,
        ensures
            tap@ == (TapView { key: key@, size, seen: Seq::empty(), overrun: false }),
    {
        CacheTap { key, size, seen: Vec::new(), overrun: false }
    }

    /// Takes in the next chunk of the stream, and says whether the file is
    /// complete now.
    pub fn observe(&mut self, chunk: &[u8]) -> (complete: bool)
        ensures
            final(self)@ == old(self)@.observe(chunk@),
            final(self)@.wf(),
            complete == final(self)@.complete(),
    {
        proof {
            use_type_invariant(&*self);
        }
        let room = self.size as usize - self.seen.len();
        if !self.overrun && chunk.len() <= room {
            let mut seen: Vec<u8> = Vec::new();
            std::mem::swap(&mut self.seen, &mut seen);
            seen.extend_from_slice(chunk);
            assert(seen@ =~= old(self).seen@ + chunk@);
            self.seen = seen;
        } else {
            self.overrun = true;
        }
        !self.overrun && self.seen.len() == self.size as usize
    }

    /// Whether all declared bytes have been seen, and no more.
    pub fn is_complete(&self) -> (complete: bool)
        ensures
            complete == self@.complete(),
            self@.wf(),
    {
        proof {
            use_type_invariant(self);
        }
        !self.overrun && self.seen.len() == self.size as usize
    }

    /// The path that the file was asked for under.
    pub fn key(&self) -> (key: &String)
        ensures
            key@ == self@.key,
    {
        &self.key
    }

    /// The bytes seen so far.
    pub fn seen(&self) -> (seen: &Vec<u8>)
        ensures
            seen@ == self@.seen,
    {
        &self.seen
    }
}

} // verus!
