//! The byte ring of `ringbuf` as the rest of the library sees it: what the
//! ring holds, the capacity it was made with, and one wrapper per call.
use ringbuf::traits::{Consumer, Observer, Producer};
use ringbuf::HeapRb;
use vstd::prelude::*;

verus! {

/// A fixed-capacity FIFO of bytes, backed by `ringbuf::HeapRb`.
#[verifier::external_body]
pub struct ByteRing {
    rb: HeapRb<u8>,
}

/// The bytes a ring holds, oldest first.
pub uninterp spec fn ring_contents(ring: ByteRing) -> Seq<u8>;

/// The number of bytes a ring was made to hold.
pub uninterp spec fn ring_capacity(ring: ByteRing) -> nat;

/// Relies on `HeapRb::new`: an empty ring whose storage is exactly
/// `capacity` items long. It panics on zero, and its allocation on more
/// than `isize::MAX` bytes.
#[verifier::external_body]
pub(crate) fn ring_new(capacity: usize) -> (r: ByteRing)
    requires
        0 < capacity <= isize::MAX,
    ensures
        ring_contents(r) == Seq::<u8>::empty(),
        ring_capacity(r) == capacity,
{
    ByteRing { rb: HeapRb::new(capacity) }
}

/// Relies on `Producer::push_slice`: appends the longest prefix of `data`
/// that fits in the vacant space and returns its length.
#[verifier::external_body]
pub(crate) fn ring_push_slice(ring: &mut ByteRing, data: &[u8]) -> (n: usize)
    requires
        ring_contents(*old(ring)).len() <= ring_capacity(*old(ring)),
    ensures
        n == if data@.len() <= ring_capacity(*old(ring)) - ring_contents(*old(ring)).len() {
            data@.len() as int
        } else {
            ring_capacity(*old(ring)) - ring_contents(*old(ring)).len()
        },
        ring_contents(*final(ring)) == ring_contents(*old(ring)) + data@.take(n as int),
        ring_capacity(*final(ring)) == ring_capacity(*old(ring)),
{
    ring.rb.push_slice(data)
}

/// Relies on `Consumer::pop_slice`: moves the oldest bytes into the front of
/// `out`, as many as both hold, and returns how many.
#[verifier::external_body]
pub(crate) fn ring_pop_slice(ring: &mut ByteRing, out: &mut Vec<u8>) -> (n: usize)
    ensures
        n == if old(out)@.len() <= ring_contents(*old(ring)).len() {
            old(out)@.len() as int
        } else {
            ring_contents(*old(ring)).len() as int
        },
        ring_contents(*final(ring)) == ring_contents(*old(ring)).skip(n as int),
        ring_capacity(*final(ring)) == ring_capacity(*old(ring)),
        final(out)@ == ring_contents(*old(ring)).take(n as int) + old(out)@.skip(n as int),
{
    ring.rb.pop_slice(out.as_mut_slice())
}

/// Relies on `Observer::occupied_len`: the number of bytes held.
#[verifier::external_body]
pub(crate) fn ring_occupied_len(ring: &ByteRing) -> (r: usize)
    ensures
        r == ring_contents(*ring).len(),
{
    ring.rb.occupied_len()
}

/// Relies on `Observer::vacant_len`: the capacity less the bytes held.
#[verifier::external_body]
pub(crate) fn ring_vacant_len(ring: &ByteRing) -> (r: usize)
    requires
        ring_contents(*ring).len() <= ring_capacity(*ring),
    ensures
        r == ring_capacity(*ring) - ring_contents(*ring).len(),
{
    ring.rb.vacant_len()
}

/// Relies on `Observer::capacity`: the length of the ring's storage.
#[verifier::external_body]
pub(crate) fn ring_capacity_len(ring: &ByteRing) -> (r: usize)
    ensures
        r == ring_capacity(*ring),
{
    ring.rb.capacity().get()
}

} // verus!
