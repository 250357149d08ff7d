//! Byte ring buffer between the audio callback and the sidecar sender, with a
//! drop-oldest policy: when the buffer is full the oldest audio is discarded
//! so that the newest audio is always kept.
//!
//! The buffer is the `ringbuf` crate's `HeapRb<u8>`; its contents are
//! modelled as a sequence of bytes (oldest first) and its capacity as a
//! number, and each operation used here is specified over that model.

use vstd::prelude::*;
use ringbuf::traits::{Consumer, Observer, Producer};
use ringbuf::HeapRb;

verus! {

/// Audio sample rate of the buffered stream.
pub const SAMPLE_RATE: usize = 16000;

/// Mono stream.
pub const CHANNELS: usize = 1;

/// 16-bit PCM.
pub const BYTES_PER_SAMPLE: usize = 2;

/// Seconds of audio the buffer holds.
pub const BUFFER_SECS: usize = 5;

/// Buffer capacity in bytes: 16000 * 1 * 2 * 5.
pub const BUFFER_CAPACITY: usize = 160000;

/// A `ringbuf::HeapRb<u8>` owned by the library.  Verus cannot declare the
/// crate's generic `SharedRb<S: Storage>` type, so the buffer is held in a
/// private field and every operation on it goes through a wrapper below.
#[verifier::external_body]
pub struct AudioRingBuffer {
    rb: HeapRb<u8>,
}

/// Bytes held by a ring buffer, oldest first.
pub uninterp spec fn ring_contents(rb: AudioRingBuffer) -> Seq<u8>;

/// Capacity a ring buffer was created with.
pub uninterp spec fn ring_capacity(rb: AudioRingBuffer) -> nat;

/// `HeapRb::new`: an empty buffer of the given capacity (the crate panics on
/// a zero capacity, so that input is excluded).
#[verifier::external_body]
fn rb_new(capacity: usize) -> (rb: AudioRingBuffer)
    requires
        capacity > 0,
    ensures
        ring_contents(rb) == Seq::<u8>::empty(),
        ring_capacity(rb) == capacity,
{
    AudioRingBuffer { rb: HeapRb::new(capacity) }
}

/// `Observer::vacant_len`: free places left, i.e. capacity minus the number
/// of stored bytes.
#[verifier::external_body]
fn rb_vacant_len(rb: &AudioRingBuffer) -> (n: usize)
    ensures
        n + ring_contents(*rb).len() == ring_capacity(*rb),
{
    rb.rb.vacant_len()
}

/// `Observer::occupied_len`: the number of stored bytes.
#[verifier::external_body]
fn rb_occupied_len(rb: &AudioRingBuffer) -> (n: usize)
    ensures
        n == ring_contents(*rb).len(),
        n <= ring_capacity(*rb),
{
    rb.rb.occupied_len()
}

/// `Consumer::skip`: removes `min(count, len)` of the oldest bytes and
/// returns how many were removed.
#[verifier::external_body]
fn rb_skip(rb: &mut AudioRingBuffer, count: usize) -> (n: usize)
    ensures
        n == (if count <= ring_contents(*old(rb)).len() { count as nat } else { ring_contents(*old(rb)).len() }),
        ring_contents(*final(rb)) == ring_contents(*old(rb)).skip(n as int),
        ring_capacity(*final(rb)) == ring_capacity(*old(rb)),
{
    rb.rb.skip(count)
}

/// `Producer::push_slice`: appends as many bytes of `data` as there is room
/// for, in order, and returns how many were appended.
#[verifier::external_body]
fn rb_push_slice(rb: &mut AudioRingBuffer, data: &[u8]) -> (n: usize)
    ensures
        n == (if data@.len() + ring_contents(*old(rb)).len() <= ring_capacity(*old(rb)) {
            data@.len()
        } else {
            (ring_capacity(*old(rb)) - ring_contents(*old(rb)).len()) as nat
        }),
        ring_contents(*final(rb)) == ring_contents(*old(rb)) + data@.take(n as int),
        ring_capacity(*final(rb)) == ring_capacity(*old(rb)),
{
    rb.rb.push_slice(data)
}

/// `Consumer::pop_slice`: moves `min(buf.len(), len)` of the oldest bytes
/// into the front of `buf` and returns how many were moved.
#[verifier::external_body]
fn rb_pop_slice(rb: &mut AudioRingBuffer, buf: &mut [u8]) -> (n: usize)
    ensures
        n == (if old(buf)@.len() <= ring_contents(*old(rb)).len() { old(buf)@.len() } else { ring_contents(*old(rb)).len() }),
        final(buf)@ == ring_contents(*old(rb)).take(n as int) + old(buf)@.skip(n as int),
        ring_contents(*final(rb)) == ring_contents(*old(rb)).skip(n as int),
        ring_capacity(*final(rb)) == ring_capacity(*old(rb)),
{
    rb.rb.pop_slice(buf)
}

/// Occupancy level of the buffer.
#[derive(Debug, Clone, Copy, PartialEq, Eq, Structural)]
pub enum BufferLevel {
    /// Up to 50% full.
    Normal,
    /// Above 50% and up to 70% full.
    Warn,
    /// Above 70% full.
    Critical,
}

/// Level for `occupied` bytes out of `BUFFER_CAPACITY`: up to half is
/// normal, up to seven tenths is a warning, more is critical.
pub open spec fn level_of(occupied: int) -> BufferLevel {
    if 2 * occupied <= BUFFER_CAPACITY {
        BufferLevel::Normal
    } else if 10 * occupied <= 7 * BUFFER_CAPACITY {
        BufferLevel::Warn
    } else {
        BufferLevel::Critical
    }
}

impl BufferLevel {
    /// Level of a buffer holding `occupied` bytes out of `BUFFER_CAPACITY`
    /// (the occupancy ratio compared with 0.5 and 0.7, in exact arithmetic).
    pub fn from_occupied_bytes(occupied: usize) -> (l: BufferLevel)
        ensures
            l == level_of(occupied as int),
    {
        if occupied <= BUFFER_CAPACITY / 2 {
            BufferLevel::Normal
        } else if occupied <= 112000 {
            BufferLevel::Warn
        } else {
            BufferLevel::Critical
        }
    }
}

/// A new, empty ring buffer of `BUFFER_CAPACITY` bytes.
pub fn new_ring_buffer() -> (rb: AudioRingBuffer)
    ensures
        ring_contents(rb) == Seq::<u8>::empty(),
        ring_capacity(rb) == BUFFER_CAPACITY,
{
    rb_new(BUFFER_CAPACITY)
}

/// Bytes dropped by a drop-oldest push of `data_len` bytes into `contents`.
pub open spec fn drop_count(contents: Seq<u8>, capacity: nat, data_len: nat) -> nat {
    let vacant = capacity - contents.len();
    if vacant < data_len {
        if data_len - vacant <= contents.len() { (data_len - vacant) as nat } else { contents.len() }
    } else {
        0
    }
}

/// Contents after a drop-oldest push: the oldest bytes are dropped to make
/// room, then as much of `data` as fits is appended.
pub open spec fn after_drop_oldest_push(contents: Seq<u8>, capacity: nat, data: Seq<u8>) -> Seq<u8> {
    let kept = contents.skip(drop_count(contents, capacity, data.len()) as int);
    let room = (capacity - kept.len()) as nat;
    kept + data.take(if data.len() <= room { data.len() as int } else { room as int })
}

/// Push audio with the drop-oldest strategy.  Returns the number of bytes
/// pushed, the number of old bytes dropped, and the resulting level.
pub fn push_audio_drop_oldest(rb: &mut AudioRingBuffer, data: &[u8]) -> (r: (usize, usize, BufferLevel))
    ensures
        r.1 == drop_count(ring_contents(*old(rb)), ring_capacity(*old(rb)), data@.len()),
        ring_contents(*final(rb)) == after_drop_oldest_push(ring_contents(*old(rb)), ring_capacity(*old(rb)), data@),
        ring_contents(*final(rb)).len() == ring_contents(*old(rb)).len() - r.1 + r.0,
        ring_capacity(*final(rb)) == ring_capacity(*old(rb)),
        r.2 == level_of(ring_contents(*final(rb)).len() as int),
        // whatever fits in the capacity is pushed whole, and ends the buffer
        data@.len() <= ring_capacity(*old(rb)) ==> r.0 == data@.len() && ring_contents(*final(rb)).subrange(
            ring_contents(*final(rb)).len() - data@.len(),
            ring_contents(*final(rb)).len() as int,
        ) == data@,
        ring_contents(*final(rb)).len() <= ring_capacity(*final(rb)),
{
    let vacant = rb_vacant_len(rb);
    let mut dropped: usize = 0;
    if vacant < data.len() {
        let need_to_drop = data.len() - vacant;
        dropped = rb_skip(rb, need_to_drop);
    }
    let pushed = rb_push_slice(rb, data);
    let occupied = rb_occupied_len(rb);
    let level = BufferLevel::from_occupied_bytes(occupied);
    proof {
        let old_c = ring_contents(*old(rb));
        let fin = ring_contents(*rb);
        if data@.len() <= ring_capacity(*old(rb)) {
            assert(data@.take(data@.len() as int) =~= data@);
            assert(fin.subrange(fin.len() - data@.len(), fin.len() as int) =~= data@);
        }
    }
    (pushed, dropped, level)
}

/// Pop buffered audio into the front of `buf`; returns the number of bytes
/// read.
pub fn pop_audio(rb: &mut AudioRingBuffer, buf: &mut [u8]) -> (n: usize)
    ensures
        n == (if old(buf)@.len() <= ring_contents(*old(rb)).len() { old(buf)@.len() } else { ring_contents(*old(rb)).len() }),
        final(buf)@ == ring_contents(*old(rb)).take(n as int) + old(buf)@.skip(n as int),
        ring_contents(*final(rb)) == ring_contents(*old(rb)).skip(n as int),
        ring_capacity(*final(rb)) == ring_capacity(*old(rb)),
{
    rb_pop_slice(rb, buf)
}

/// Bytes currently buffered.
pub fn occupied_bytes(rb: &AudioRingBuffer) -> (n: usize)
    ensures
        n == ring_contents(*rb).len(),
{
    rb_occupied_len(rb)
}

/// Nothing is dropped while the data fits: the buffer is a FIFO of
/// everything pushed.
pub proof fn lemma_ring_fifo_when_room(contents: Seq<u8>, capacity: nat, data: Seq<u8>)
    requires
        contents.len() + data.len() <= capacity,
    ensures
        drop_count(contents, capacity, data.len()) == 0,
        after_drop_oldest_push(contents, capacity, data) == contents + data,
{
    assert(contents.skip(0) =~= contents);
    assert(data.take(data.len() as int) =~= data);
}

/// Drop-oldest keeps the newest bytes: after pushing at most a buffer's
/// worth, the buffer holds the last bytes of the old contents followed by
/// the new data, as many as fit.
pub proof fn lemma_ring_keeps_newest(contents: Seq<u8>, capacity: nat, data: Seq<u8>)
    requires
        contents.len() <= capacity,
        data.len() <= capacity,
    ensures
        ({
            let total = contents.len() + data.len();
            let excess = if total > capacity { total - capacity } else { 0 };
            after_drop_oldest_push(contents, capacity, data) == (contents + data).skip(excess)
        }),
{
    let total = contents.len() + data.len();
    let excess: int = if total > capacity { total - capacity } else { 0 };
    let d = drop_count(contents, capacity, data.len());
    assert(d == excess);
    let kept = contents.skip(d as int);
    assert(data.take(data.len() as int) =~= data);
    assert(kept + data =~= (contents + data).skip(excess));
}

/// Reading back what was written into an empty buffer gives it back.
pub proof fn lemma_ring_read_after_write(capacity: nat, data: Seq<u8>)
    requires
        data.len() <= capacity,
    ensures
        after_drop_oldest_push(Seq::empty(), capacity, data).take(data.len() as int) == data,
        after_drop_oldest_push(Seq::empty(), capacity, data).skip(data.len() as int) == Seq::<u8>::empty(),
{
    lemma_ring_fifo_when_room(Seq::empty(), capacity, data);
    assert(Seq::<u8>::empty() + data =~= data);
    assert(data.take(data.len() as int) =~= data);
    assert(data.skip(data.len() as int) =~= Seq::<u8>::empty());
}

} // verus!
