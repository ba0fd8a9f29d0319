//! The stable-memory side indices.  They live in `ic_stable_structures`
//! B-tree maps (vector-backed here; the actor runtime supplies real stable
//! memory), behind a small trusted boundary: every key and value is a tuple
//! of four 64-bit components, carried through the store as its big-endian
//! byte encoding, which is injective, so the store behaves as a map over the
//! tuples themselves.

use ic_stable_structures::btreemap::BTreeMap;
use ic_stable_structures::VectorMemory;
use vstd::prelude::*;

verus! {

/// Encodes four 64-bit components as 32 big-endian bytes.
fn encode4(k: (u64, u64, u64, u64)) -> Vec<u8> {
    let mut out: Vec<u8> = Vec::new();
    push_u64_be(&mut out, k.0);
    push_u64_be(&mut out, k.1);
    push_u64_be(&mut out, k.2);
    push_u64_be(&mut out, k.3);
    out
}

fn push_u64_be(out: &mut Vec<u8>, x: u64) {
    let mut shift: u64 = 64;
    while shift >= 8
        invariant
            shift % 8 == 0,
            shift <= 64,
        decreases shift,
    {
        shift = shift - 8;
        out.push(((x >> shift) & 0xff) as u8);
    }
}

/// Decodes 32 big-endian bytes back into four 64-bit components; bytes past
/// the end of a short input read as zero.
fn decode4(bytes: &Vec<u8>) -> (u64, u64, u64, u64) {
    (
        read_u64_be(bytes, 0),
        read_u64_be(bytes, 8),
        read_u64_be(bytes, 16),
        read_u64_be(bytes, 24),
    )
}

fn read_u64_be(bytes: &Vec<u8>, start: usize) -> u64 {
    let mut x: u64 = 0;
    let mut i: usize = 0;
    while i < 8
        invariant
            0 <= i <= 8,
        decreases 8 - i,
    {
        let b: u64 = if start <= usize::MAX - i && start + i < bytes.len() {
            bytes[start + i] as u64
        } else {
            0
        };
        x = (x << 8) | b;
        i += 1;
    }
    x
}

/// A key or value of four 64-bit components.
pub type Quad = (u64, u64, u64, u64);

/// What a stable key-value store holds, as a map over the decoded tuples.
pub uninterp spec fn stable_kv_contents(m: StableKV) -> Map<Quad, Quad>;

/// A stable-memory map from four-component keys to four-component values.
///
/// Relies on `ic_stable_structures::btreemap::BTreeMap` over byte-vector
/// keys and values; the big-endian encoding of the components is injective,
/// so the store keyed by encoded bytes is a map over the tuples.
#[verifier::external_body]
pub struct StableKV {
    inner: BTreeMap<Vec<u8>, Vec<u8>, VectorMemory>,
}

impl StableKV {
    /// Relies on `BTreeMap::new`: a map created over fresh memory is empty.
    #[verifier::external_body]
    pub fn new() -> (r: StableKV)
        ensures
            forall|k: Quad| !stable_kv_contents(r).contains_key(k),
    {
        StableKV { inner: BTreeMap::new(VectorMemory::default()) }
    }

    /// Relies on `BTreeMap::get`: returns the value stored under the key,
    /// if present.
    #[verifier::external_body]
    pub fn get(&self, k: Quad) -> (r: Option<Quad>)
        ensures
            match r {
                Some(v) => stable_kv_contents(*self).contains_key(k) && v == stable_kv_contents(
                    *self,
                )[k],
                None => !stable_kv_contents(*self).contains_key(k),
            },
    {
        self.inner.get(&encode4(k)).as_ref().map(decode4)
    }

    /// Relies on `BTreeMap::insert`: binds the key to the value, replacing
    /// any earlier binding.
    #[verifier::external_body]
    pub fn insert(&mut self, k: Quad, v: Quad)
        ensures
            stable_kv_contents(*final(self)) == stable_kv_contents(*old(self)).insert(k, v),
    {
        self.inner.insert(encode4(k), encode4(v));
    }

    /// Relies on `BTreeMap::iter`: yields every entry of the map exactly
    /// once.
    #[verifier::external_body]
    pub fn entries(&self) -> (r: Vec<(Quad, Quad)>)
        ensures
            forall|i: int|
                0 <= i < r@.len() ==> stable_kv_contents(*self).contains_key(#[trigger] r@[i].0)
                    && stable_kv_contents(*self)[r@[i].0] == r@[i].1,
            forall|k: Quad|
                stable_kv_contents(*self).contains_key(k) ==> exists|i: int|
                    0 <= i < r@.len() && #[trigger] r@[i].0 == k,
            forall|i: int, j: int| 0 <= i < j < r@.len() ==> r@[i].0 != r@[j].0,
    {
        self.inner.iter().map(|e| {
            let (k, v) = e.into_pair();
            (decode4(&k), decode4(&v))
        }).collect()
    }
}

/// What the timer queue holds: composite keys of a millisecond timestamp in
/// the upper and a post id in the lower 64 bits, so the numeric order is the
/// lexicographic order on (timestamp, post id).
pub uninterp spec fn timer_queue_contents(q: TimerQueue) -> Set<u128>;

/// The queue of posts awaiting slot tabulation, ordered by the time their
/// first bet arrived.
///
/// Relies on `ic_stable_structures::btreemap::BTreeMap` with `u128` keys and
/// unit values.
#[verifier::external_body]
pub struct TimerQueue {
    inner: BTreeMap<u128, (), VectorMemory>,
}

impl TimerQueue {
    /// Relies on `BTreeMap::new`: a map created over fresh memory is empty.
    #[verifier::external_body]
    pub fn new() -> (r: TimerQueue)
        ensures
            forall|k: u128| !timer_queue_contents(r).contains(k),
    {
        TimerQueue { inner: BTreeMap::new(VectorMemory::default()) }
    }

    /// Relies on `BTreeMap::insert`.
    #[verifier::external_body]
    pub fn insert(&mut self, k: u128)
        ensures
            timer_queue_contents(*final(self)) == timer_queue_contents(*old(self)).insert(k),
    {
        self.inner.insert(k, ());
    }

    /// Relies on `BTreeMap::first_key_value`: the entry returned carries the
    /// minimum key.
    #[verifier::external_body]
    pub fn first_key(&self) -> (r: Option<u128>)
        ensures
            match r {
                None => timer_queue_contents(*self) == Set::<u128>::empty(),
                Some(k) => timer_queue_contents(*self).contains(k) && forall|k2: u128|
                    timer_queue_contents(*self).contains(k2) ==> k <= k2,
            },
    {
        self.inner.first_key_value().map(|e| e.0)
    }

    /// Relies on `BTreeMap::remove`: unbinds the key, if present.
    #[verifier::external_body]
    pub fn remove(&mut self, k: u128)
        ensures
            timer_queue_contents(*final(self)) == timer_queue_contents(*old(self)).remove(k),
    {
        self.inner.remove(&k);
    }

    /// Relies on `BTreeMap::pop_first`: removes and returns the entry with
    /// the minimum key.
    #[verifier::external_body]
    pub fn pop_first(&mut self) -> (r: Option<u128>)
        ensures
            match r {
                None => timer_queue_contents(*old(self)) == Set::<u128>::empty() && *final(self)
                    == *old(self),
                Some(k) => {
                    &&& timer_queue_contents(*old(self)).contains(k)
                    &&& forall|k2: u128| timer_queue_contents(*old(self)).contains(k2) ==> k <= k2
                    &&& timer_queue_contents(*final(self)) == timer_queue_contents(
                        *old(self),
                    ).remove(k)
                },
            },
    {
        self.inner.pop_first().map(|e| e.0)
    }
}

} // verus!
