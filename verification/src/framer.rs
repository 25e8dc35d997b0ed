//! Byte framer: gathers serial bytes into sentences.
//!
//! A sentence ends with carriage return and line feed. The buffer holds at
//! most [`CAPACITY`] bytes; a sentence that fills it without ending is
//! dropped and reported, never cut short.

use vstd::prelude::*;

verus! {

/// The longest sentence the serial protocol allows, terminator included.
pub const CAPACITY: usize = 82;

/// Carriage return, the first byte of the terminator.
pub const CR: u8 = 0x0d;

/// Line feed, the second byte of the terminator.
pub const LF: u8 = 0x0a;

/// What the framer emits, over sequences.
pub enum Emitted {
    /// A sentence, terminator included.
    Frame(Seq<u8>),
    /// The bytes gathered when the source went idle; may be empty.
    Idle(Seq<u8>),
    /// The buffer filled up before a terminator came; its bytes are dropped.
    Overflow,
}

/// What the framer emits.
#[derive(Debug, PartialEq, Eq)]
pub enum FramerEvent {
    /// A sentence, terminator included.
    Frame(Vec<u8>),
    /// The bytes gathered when the source went idle; may be empty.
    Idle(Vec<u8>),
    /// The buffer filled up before a terminator came; its bytes are dropped.
    Overflow,
}

impl View for FramerEvent {
    type V = Emitted;

    open spec fn view(&self) -> Emitted {
        match self {
            FramerEvent::Frame(bytes) => Emitted::Frame(bytes@),
            FramerEvent::Idle(bytes) => Emitted::Idle(bytes@),
            FramerEvent::Overflow => Emitted::Overflow,
        }
    }
}

/// The views of a list of events, in order.
pub open spec fn events_view(events: Seq<FramerEvent>) -> Seq<Emitted> {
    Seq::new(events.len(), |i: int| events[i]@)
}

/// The last two bytes are the terminator.
pub open spec fn terminated(bytes: Seq<u8>) -> bool {
    bytes.len() >= 2 && bytes[bytes.len() - 2] == CR && bytes[bytes.len() - 1] == LF
}

/// One byte arrives: the buffer afterwards, and what is emitted if anything.
pub open spec fn step(buffer: Seq<u8>, byte: u8) -> (Seq<u8>, Option<Emitted>) {
    let grown = buffer.push(byte);
    if terminated(grown) {
        (Seq::empty(), Some(Emitted::Frame(grown)))
    } else if grown.len() >= CAPACITY {
        (Seq::empty(), Some(Emitted::Overflow))
    } else {
        (grown, None)
    }
}

/// The bytes arrive one after another: the buffer afterwards, and everything
/// emitted on the way, in order.
pub open spec fn run(buffer: Seq<u8>, bytes: Seq<u8>) -> (Seq<u8>, Seq<Emitted>)
    decreases bytes.len(),
{
    if bytes.len() == 0 {
        (buffer, Seq::empty())
    } else {
        let (before, emitted) = run(buffer, bytes.drop_last());
        let (after, event) = step(before, bytes.last());
        match event {
            Some(e) => (after, emitted.push(e)),
            None => (after, emitted),
        }
    }
}

/// The sentence in progress.
#[derive(Debug)]
pub struct FrameBuffer {
    bytes: Vec<u8>,
}

impl View for FrameBuffer {
    type V = Seq<u8>;

    closed spec fn view(&self) -> Seq<u8> {
        self.bytes@
    }
}

impl FrameBuffer {
    /// The buffer is never full: a byte that fills it empties it.
    #[verifier::type_invariant]
    closed spec fn within_capacity(self) -> bool {
        self.bytes@.len() < CAPACITY
    }

    /// An empty buffer.
    pub fn new() -> (buffer: FrameBuffer)
        ensures
            buffer@ == Seq::<u8>::empty(),
    {
        FrameBuffer { bytes: Vec::new() }
    }

    /// How many bytes of the sentence in progress are held; always fewer
    /// than [`CAPACITY`].
    pub fn len(&self) -> (n: usize)
        ensures
            n == self@.len(),
            n < CAPACITY,
    {
        proof {
            use_type_invariant(self);
        }
        self.bytes.len()
    }

    /// Whether nothing is held.
    pub fn is_empty(&self) -> (empty: bool)
        ensures
            empty == (self@.len() == 0),
    {
        self.bytes.len() == 0
    }

    /// Hands out what is held and leaves the buffer empty.
    fn take(&mut self) -> (held: Vec<u8>)
        ensures
            held@ == old(self)@,
            held@.len() < CAPACITY,
            final(self)@ == Seq::<u8>::empty(),
    {
        proof {
            use_type_invariant(&*self);
        }
        let mut emptied = FrameBuffer { bytes: Vec::new() };
        core::mem::swap(self, &mut emptied);
        emptied.bytes
    }

    /// Drops the sentence in progress: the reaction to a failed read of the
    /// source.
    pub fn reset(&mut self)
        ensures
            final(self)@ == Seq::<u8>::empty(),
    {
        self.bytes = Vec::new();
    }

    /// Takes one byte. Emits the sentence when the byte completes the
    /// terminator, an overflow when it fills the buffer without doing so, and
    /// nothing otherwise. After either emission the buffer is empty.
    pub fn push(&mut self, byte: u8) -> (event: Option<FramerEvent>)
        ensures
            final(self)@ == step(old(self)@, byte).0,
            final(self)@.len() < CAPACITY,
            match event {
                Some(e) => step(old(self)@, byte).1 == Some(e@),
                None => step(old(self)@, byte).1.is_none(),
            },
    {
        proof {
            use_type_invariant(&*self);
        }
        let mut grown = self.take();
        grown.push(byte);
        let n: usize = grown.len();
        if n >= 2 && grown[n - 2] == CR && grown[n - 1] == LF {
            Some(FramerEvent::Frame(grown))
        } else if n >= CAPACITY {
            Some(FramerEvent::Overflow)
        } else {
            self.bytes = grown;
            None
        }
    }

    /// The source reported that no byte came in time: whatever is held, be it
    /// nothing, is emitted as it stands, and the buffer is empty afterwards.
    pub fn idle(&mut self) -> (event: FramerEvent)
        ensures
            final(self)@ == Seq::<u8>::empty(),
            event@ == Emitted::Idle(old(self)@),
    {
        let held = self.take();
        FramerEvent::Idle(held)
    }

    /// Takes what one read of the source returned. An empty chunk is the
    /// source's idle signal and emits the held bytes; otherwise the bytes are
    /// taken one by one and every sentence or overflow on the way is emitted,
    /// in order.
    pub fn feed(&mut self, chunk: &[u8]) -> (events: Vec<FramerEvent>)
        ensures
            final(self)@.len() < CAPACITY,
            chunk@.len() == 0 ==> final(self)@ == Seq::<u8>::empty() && events_view(events@)
                == seq![Emitted::Idle(old(self)@)],
            chunk@.len() > 0 ==> final(self)@ == run(old(self)@, chunk@).0 && events_view(events@)
                == run(old(self)@, chunk@).1,
    {
        let mut events: Vec<FramerEvent> = Vec::new();
        if chunk.len() == 0 {
            let event = self.idle();
            events.push(event);
            assert(events_view(events@) =~= seq![Emitted::Idle(old(self)@)]);
            return events;
        }
        assert(events_view(events@) =~= Seq::<Emitted>::empty());
        let mut i: usize = 0;
        while i < chunk.len()
            invariant
                i <= chunk.len(),
                self@ == run(old(self)@, chunk@.take(i as int)).0,
                events_view(events@) == run(old(self)@, chunk@.take(i as int)).1,
            decreases chunk.len() - i,
        {
            let ghost before = events@;
            assert(chunk@.take(i + 1).drop_last() =~= chunk@.take(i as int));
            let event = self.push(chunk[i]);
            match event {
                Some(e) => {
                    events.push(e);
                    assert(events_view(events@) =~= events_view(before).push(e@));
                },
                None => {},
            }
            i += 1;
        }
        assert(chunk@.take(i as int) =~= chunk@);
        proof {
            use_type_invariant(&*self);
        }
        events
    }
}

/// Feeding bytes in two parts emits what feeding them at once emits, and
/// leaves the same bytes in the buffer.
pub proof fn lemma_run_split(buffer: Seq<u8>, head: Seq<u8>, tail: Seq<u8>)
    ensures
        run(buffer, head + tail).0 == run(run(buffer, head).0, tail).0,
        run(buffer, head + tail).1 == run(buffer, head).1 + run(run(buffer, head).0, tail).1,
    decreases tail.len(),
{
    if tail.len() == 0 {
        assert(head + tail =~= head);
        assert(run(buffer, head).1 + Seq::<Emitted>::empty() =~= run(buffer, head).1);
    } else {
        assert((head + tail).drop_last() =~= head + tail.drop_last());
        assert((head + tail).last() == tail.last());
        lemma_run_split(buffer, head, tail.drop_last());
        let mid = run(buffer, head);
        let (before, emitted) = run(mid.0, tail.drop_last());
        let (after, event) = step(before, tail.last());
        match event {
            Some(e) => {
                assert((mid.1 + emitted).push(e) =~= mid.1 + emitted.push(e));
            },
            None => {},
        }
    }
}

/// What is emitted in all when the chunks are fed one after another, and the
/// buffer afterwards.
pub open spec fn run_chunks(buffer: Seq<u8>, chunks: Seq<Seq<u8>>) -> (Seq<u8>, Seq<Emitted>)
    decreases chunks.len(),
{
    if chunks.len() == 0 {
        (buffer, Seq::empty())
    } else {
        let (before, emitted) = run_chunks(buffer, chunks.drop_last());
        let (after, more) = run(before, chunks.last());
        (after, emitted + more)
    }
}

/// Chunking does not matter: however a byte sequence is cut into chunks,
/// the same events are emitted in the same order and the same bytes stay in
/// the buffer as when it is fed in one piece. (A chunk without bytes adds
/// nothing here; as a read of the source it is the idle signal, which is
/// not part of the byte sequence.)
pub proof fn lemma_chunking_invariance(buffer: Seq<u8>, chunks: Seq<Seq<u8>>)
    ensures
        run_chunks(buffer, chunks) == run(buffer, chunks.flatten()),
    decreases chunks.len(),
{
    if chunks.len() == 0 {
        assert(chunks.flatten() =~= Seq::<u8>::empty());
    } else {
        lemma_chunking_invariance(buffer, chunks.drop_last());
        lemma_run_split(buffer, chunks.drop_last().flatten(), chunks.last());
        assert(chunks.flatten() =~= chunks.drop_last().flatten() + chunks.last()) by {
            assert(chunks =~= chunks.drop_last().push(chunks.last()));
            chunks.drop_last().lemma_flatten_push(chunks.last());
        }
    }
}

/// The bytes, each as a chunk of its own.
pub open spec fn singles(bytes: Seq<u8>) -> Seq<Seq<u8>> {
    Seq::new(bytes.len(), |i: int| seq![bytes[i]])
}

/// Feeding a byte sequence one byte at a time emits what feeding it as one
/// chunk emits, and leaves the same bytes in the buffer.
pub proof fn lemma_byte_at_a_time(buffer: Seq<u8>, bytes: Seq<u8>)
    ensures
        run_chunks(buffer, singles(bytes)) == run(buffer, bytes),
{
    lemma_singles_flatten(bytes);
    lemma_chunking_invariance(buffer, singles(bytes));
}

/// Laid end to end, the one-byte chunks of a sequence are the sequence.
proof fn lemma_singles_flatten(bytes: Seq<u8>)
    ensures
        singles(bytes).flatten() == bytes,
    decreases bytes.len(),
{
    if bytes.len() == 0 {
        assert(singles(bytes).flatten() =~= Seq::<u8>::empty());
    } else {
        let front = bytes.drop_last();
        let last = seq![bytes.last()];
        lemma_singles_flatten(front);
        assert(singles(bytes) =~= singles(front).push(last));
        singles(front).lemma_flatten_push(last);
        assert(front + last =~= bytes);
    }
}

/// A sentence that reaches the capacity without a terminator is reported as
/// an overflow, and the buffer is empty right after; no frame is emitted for
/// it.
pub proof fn lemma_full_buffer_overflows(buffer: Seq<u8>, byte: u8)
    requires
        buffer.len() + 1 == CAPACITY,
        !terminated(buffer.push(byte)),
    ensures
        step(buffer, byte) == (Seq::<u8>::empty(), Some(Emitted::Overflow)),
{
}

/// The buffer never holds as much as its capacity after a step, and a frame
/// is never longer than the capacity.
pub proof fn lemma_step_bounded(buffer: Seq<u8>, byte: u8)
    requires
        buffer.len() < CAPACITY,
    ensures
        step(buffer, byte).0.len() < CAPACITY,
        step(buffer, byte).1 matches Some(Emitted::Frame(frame)) ==> frame.len() <= CAPACITY
            && terminated(frame) && frame == buffer.push(byte),
{
}

}
