//! The two paced generators: a run of filler bytes in chunks, and a fixed
//! count of text events. Each is pulled one item at a time, pauses between
//! items and never before the first, and cannot be restarted.

use crate::buffer::{bytes_held, text_buffer};
use crate::text::{append_decimal, decimal};
use actix_web::web::Bytes;
use vstd::prelude::*;
use vstd::slice::slice_subrange;
use vstd::utf8::encode_utf8;
use vstd::string::StringExecFns;

verus! {

/// The media type of a byte stream.
pub const BYTES_CONTENT_TYPE: &'static str = "application/octet-stream";

/// The media type of an event stream.
pub const EVENTS_CONTENT_TYPE: &'static str = "text/event-stream";

/// The caching directive of an event stream: nothing on the way may keep
/// or buffer it.
pub const EVENTS_CACHE_CONTROL: &'static str = "no-store";

/// The most bytes in one chunk.
pub const CHUNK_SIZE: usize = 1024;

/// The byte that fills every chunk: the letter `X`.
pub const FILL_BYTE: u8 = 88;

/// Nanoseconds between two chunks: 30 ms.
pub const CHUNK_PAUSE: u64 = 30_000_000;

/// How many events an event stream holds.
pub const EVENT_COUNT: usize = 10;

/// Nanoseconds between two events: one second.
pub const EVENT_PAUSE: u64 = 1_000_000_000;

/// What one pull of a generator gives.
pub enum Pull<T> {
    /// Wait `pause` nanoseconds, then deliver `item`.
    Item { pause: u64, item: T },
    /// Nothing more will come.
    Done,
}

/// `n` filler bytes.
pub open spec fn filler(n: nat) -> Seq<u8> {
    Seq::new(n, |i: int| FILL_BYTE)
}

/// The size of the next chunk when `left` bytes are still to come.
pub open spec fn chunk_len(left: nat) -> nat {
    if left < CHUNK_SIZE {
        left
    } else {
        CHUNK_SIZE as nat
    }
}

/// How many chunks carry `left` bytes: `left / CHUNK_SIZE`, rounded up.
pub open spec fn chunk_count(left: nat) -> nat {
    ((left + CHUNK_SIZE - 1) / (CHUNK_SIZE as int)) as nat
}

/// The pause before the item that follows `delivered` earlier ones.
pub open spec fn pause_after(delivered: nat, pause: u64) -> u64 {
    if delivered == 0 {
        0
    } else {
        pause
    }
}

/// The chunks still to come when `left` bytes are, first one first.
pub open spec fn chunks_of(left: nat) -> Seq<Seq<u8>>
    decreases left,
{
    if left == 0 {
        Seq::empty()
    } else {
        seq![filler(chunk_len(left))] + chunks_of((left - chunk_len(left)) as nat)
    }
}

/// The bytes of all `chunks` together.
pub open spec fn total_len(chunks: Seq<Seq<u8>>) -> nat
    decreases chunks.len(),
{
    if chunks.len() == 0 {
        0
    } else {
        chunks[0].len() + total_len(chunks.drop_first())
    }
}

/// A stream delivers exactly what was asked for: the chunks of `left` bytes
/// are `left / CHUNK_SIZE` rounded up in number, each is as large as a chunk
/// may be or holds all that is left, and together they hold `left` bytes.
pub proof fn lemma_chunks_complete(left: nat)
    ensures
        chunks_of(left).len() == chunk_count(left),
        total_len(chunks_of(left)) == left,
        forall|i: int|
            0 <= i < chunks_of(left).len() ==> #[trigger] chunks_of(left)[i] == filler(
                chunk_len((left - i * CHUNK_SIZE) as nat),
            ),
        forall|i: int|
            0 <= i < chunks_of(left).len() ==> 0 < (#[trigger] chunks_of(left)[i]).len()
                <= CHUNK_SIZE,
    decreases left,
{
    if left > 0 {
        let first = chunk_len(left);
        let rest = (left - first) as nat;
        lemma_chunks_complete(rest);
        let all = chunks_of(left);
        assert(all.drop_first() == chunks_of(rest));
        assert forall|i: int| 0 <= i < all.len() implies #[trigger] all[i] == filler(
            chunk_len((left - i * CHUNK_SIZE) as nat),
        ) by {
            if i > 0 {
                assert(all[i] == chunks_of(rest)[i - 1]);
            }
        }
    }
}

/// What each of `buffers` holds, in the same order.
pub open spec fn contents(buffers: Seq<Bytes>) -> Seq<Seq<u8>> {
    Seq::new(buffers.len(), |i: int| bytes_held(buffers[i]))
}

/// A run of `total` filler bytes, delivered in chunks of at most
/// `CHUNK_SIZE` until all are sent or the stream is cancelled.
pub struct ByteStream {
    sent: usize,
    total: usize,
    cancelled: bool,
    /// One full chunk, of which every item is a copy or the front of one.
    pattern: Vec<u8>,
}

impl ByteStream {
    #[verifier::type_invariant]
    spec fn sound(self) -> bool {
        self.sent <= self.total && self.pattern@ == filler(CHUNK_SIZE as nat)
    }

    /// Bytes delivered so far.
    pub closed spec fn sent(&self) -> nat {
        self.sent as nat
    }

    /// Bytes the stream was made for.
    pub closed spec fn total(&self) -> nat {
        self.total as nat
    }

    /// Whether the consumer has gone away.
    pub closed spec fn cancelled(&self) -> bool {
        self.cancelled
    }

    /// Bytes a pull can still deliver.
    pub open spec fn left(&self) -> nat {
        if self.cancelled() {
            0
        } else {
            (self.total() - self.sent()) as nat
        }
    }

    /// A fresh stream of `total` bytes.
    pub fn new(total: usize) -> (stream: ByteStream)
        ensures
            stream.sent() == 0,
            stream.total() == total,
            !stream.cancelled(),
    {
        let pattern = vec![FILL_BYTE; CHUNK_SIZE];
        assert(pattern@ =~= filler(CHUNK_SIZE as nat));
        ByteStream { sent: 0, total, cancelled: false, pattern }
    }

    /// A fresh stream of `kb` times 1024 bytes.
    pub fn of_kilobytes(kb: usize) -> (stream: ByteStream)
        requires
            kb * 1024 <= usize::MAX,
        ensures
            stream.sent() == 0,
            stream.total() == kb * 1024,
            !stream.cancelled(),
    {
        ByteStream::new(kb * 1024)
    }

    /// The next chunk, with the pause that precedes it, or `Done` once
    /// everything was sent or the stream was cancelled.
    pub fn next(&mut self) -> (pull: Pull<Bytes>)
        ensures
            final(self).total() == old(self).total(),
            final(self).cancelled() == old(self).cancelled(),
            final(self).sent() == old(self).sent() + chunk_len(old(self).left()),
            final(self).sent() <= final(self).total(),
            old(self).left() == 0 ==> pull is Done,
            old(self).left() > 0 ==> (pull matches Pull::Item { pause, item } && bytes_held(item)
                == filler(chunk_len(old(self).left())) && pause == pause_after(
                old(self).sent(),
                CHUNK_PAUSE,
            )),
    {
        proof {
            use_type_invariant(&*self);
        }
        if self.cancelled || self.sent >= self.total {
            return Pull::Done;
        }
        let left = self.total - self.sent;
        let size = if left < CHUNK_SIZE {
            left
        } else {
            CHUNK_SIZE
        };
        let pause = if self.sent == 0 {
            0
        } else {
            CHUNK_PAUSE
        };
        let front = slice_subrange(self.pattern.as_slice(), 0, size);
        assert(front@ =~= filler(size as nat));
        let item = Bytes::copy_from_slice(front);
        self.sent = self.sent + size;
        Pull::Item { pause, item }
    }

    /// Marks the consumer as gone: no pull delivers anything afterwards.
    pub fn cancel(&mut self)
        ensures
            final(self).cancelled(),
            final(self).sent() == old(self).sent(),
            final(self).total() == old(self).total(),
    {
        proof {
            use_type_invariant(&*self);
        }
        self.cancelled = true;
    }

    /// Pulls until `Done` and hands over the chunks, first one first,
    /// without pausing.
    pub fn drain(&mut self) -> (chunks: Vec<Bytes>)
        ensures
            contents(chunks@) == chunks_of(old(self).left()),
            final(self).left() == 0,
            final(self).total() == old(self).total(),
            final(self).cancelled() == old(self).cancelled(),
    {
        let mut chunks: Vec<Bytes> = Vec::new();
        loop
            invariant
                self.total() == old(self).total(),
                self.cancelled() == old(self).cancelled(),
                contents(chunks@) + chunks_of(self.left()) == chunks_of(old(self).left()),
            decreases self.left(),
        {
            let ghost before = chunks@;
            let ghost left = self.left();
            match self.next() {
                Pull::Done => {
                    assert(contents(before) + Seq::<Seq<u8>>::empty() == contents(before));
                    return chunks;
                },
                Pull::Item { pause, item } => {
                    chunks.push(item);
                    proof {
                        let held = bytes_held(item);
                        assert(contents(chunks@) == contents(before).push(held));
                        assert(chunks_of(left) == seq![held] + chunks_of(self.left()));
                        assert(contents(before).push(held) + chunks_of(self.left()) == contents(
                            before,
                        ) + chunks_of(left));
                    }
                },
            }
        }
    }
}

/// The text of event number `n`: a greeting line, then a tick line.
pub open spec fn event_record(n: nat) -> Seq<char> {
    "data: hello "@ + decimal(n) + "\n\nevent: tick\ndata: "@ + decimal(n) + "\n\n"@
}

/// The events still to come after `emitted` of them, first one first.
pub open spec fn events_after(emitted: nat) -> Seq<Seq<char>>
    decreases EVENT_COUNT - emitted,
{
    if emitted >= EVENT_COUNT {
        Seq::empty()
    } else {
        seq![event_record(emitted + 1)] + events_after(emitted + 1)
    }
}

/// A stream holds `EVENT_COUNT` events less those already emitted,
/// numbered on from the last one.
pub proof fn lemma_events_complete(emitted: nat)
    requires
        emitted <= EVENT_COUNT,
    ensures
        events_after(emitted).len() == EVENT_COUNT - emitted,
        forall|i: int|
            0 <= i < events_after(emitted).len() ==> #[trigger] events_after(emitted)[i]
                == event_record((emitted + 1 + i) as nat),
    decreases EVENT_COUNT - emitted,
{
    if emitted < EVENT_COUNT {
        lemma_events_complete(emitted + 1);
        let all = events_after(emitted);
        assert forall|i: int| 0 <= i < all.len() implies #[trigger] all[i] == event_record(
            (emitted + 1 + i) as nat,
        ) by {
            if i > 0 {
                assert(all[i] == events_after(emitted + 1)[i - 1]);
            }
        }
    }
}

/// The bytes of each of `events`, in the same order.
pub open spec fn encoded(events: Seq<Seq<char>>) -> Seq<Seq<u8>> {
    Seq::new(events.len(), |i: int| encode_utf8(events[i]))
}

/// The text of event number `n`.
pub fn event_text(n: u64) -> (text: String)
    ensures
        text@ == event_record(n as nat),
{
    let mut text = String::from_str("data: hello ");
    append_decimal(&mut text, n);
    text.append("\n\nevent: tick\ndata: ");
    append_decimal(&mut text, n);
    text.append("\n\n");
    text
}

/// `EVENT_COUNT` numbered text events, one per pull, until all are out or
/// the stream is cancelled.
pub struct EventStream {
    emitted: usize,
    cancelled: bool,
}

impl EventStream {
    #[verifier::type_invariant]
    spec fn in_range(self) -> bool {
        self.emitted <= EVENT_COUNT
    }

    /// Events delivered so far.
    pub closed spec fn emitted(&self) -> nat {
        self.emitted as nat
    }

    /// Whether the consumer has gone away.
    pub closed spec fn cancelled(&self) -> bool {
        self.cancelled
    }

    /// Whether a pull can still deliver an event.
    pub open spec fn live(&self) -> bool {
        !self.cancelled() && self.emitted() < EVENT_COUNT
    }

    /// The events that pulls can still deliver, first one first.
    pub open spec fn pending(&self) -> Seq<Seq<char>> {
        if self.cancelled() {
            Seq::empty()
        } else {
            events_after(self.emitted())
        }
    }

    /// A fresh stream.
    pub fn new() -> (stream: EventStream)
        ensures
            stream.emitted() == 0,
            !stream.cancelled(),
    {
        EventStream { emitted: 0, cancelled: false }
    }

    /// The next event, with the pause that precedes it, or `Done` once
    /// all are out or the stream was cancelled.
    pub fn next(&mut self) -> (pull: Pull<Bytes>)
        ensures
            final(self).cancelled() == old(self).cancelled(),
            final(self).emitted() <= EVENT_COUNT,
            !old(self).live() ==> pull is Done && final(self).emitted() == old(self).emitted(),
            old(self).live() ==> (pull matches Pull::Item { pause, item } && bytes_held(item)
                == encode_utf8(event_record(old(self).emitted() + 1)) && pause == pause_after(
                old(self).emitted(),
                EVENT_PAUSE,
            ) && final(self).emitted() == old(self).emitted() + 1),
    {
        proof {
            use_type_invariant(&*self);
        }
        if self.cancelled || self.emitted >= EVENT_COUNT {
            return Pull::Done;
        }
        let pause = if self.emitted == 0 {
            0
        } else {
            EVENT_PAUSE
        };
        self.emitted = self.emitted + 1;
        let item = text_buffer(event_text(self.emitted as u64));
        Pull::Item { pause, item }
    }

    /// Marks the consumer as gone: no pull delivers anything afterwards.
    pub fn cancel(&mut self)
        ensures
            final(self).cancelled(),
            final(self).emitted() == old(self).emitted(),
    {
        proof {
            use_type_invariant(&*self);
        }
        self.cancelled = true;
    }

    /// Pulls until `Done` and hands over the events, first one first,
    /// without pausing.
    pub fn drain(&mut self) -> (events: Vec<Bytes>)
        ensures
            contents(events@) == encoded(old(self).pending()),
            !final(self).live(),
            final(self).cancelled() == old(self).cancelled(),
    {
        proof {
            use_type_invariant(&*self);
        }
        let mut events: Vec<Bytes> = Vec::new();
        loop
            invariant
                self.cancelled() == old(self).cancelled(),
                self.emitted() <= EVENT_COUNT,
                contents(events@) + encoded(self.pending()) == encoded(old(self).pending()),
            decreases EVENT_COUNT - self.emitted(),
        {
            let ghost before = events@;
            let ghost pending = self.pending();
            match self.next() {
                Pull::Done => {
                    assert(pending == Seq::<Seq<char>>::empty());
                    assert(contents(before) + encoded(pending) == contents(before));
                    return events;
                },
                Pull::Item { pause, item } => {
                    events.push(item);
                    proof {
                        let held = bytes_held(item);
                        assert(contents(events@) == contents(before).push(held));
                        assert(pending == seq![pending[0]] + self.pending());
                        assert(encoded(pending) == seq![held] + encoded(self.pending()));
                        assert(contents(before).push(held) + encoded(self.pending()) == contents(
                            before,
                        ) + encoded(pending));
                    }
                },
            }
        }
    }
}

} // verus!
