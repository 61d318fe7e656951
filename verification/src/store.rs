//! In-memory history of the readings of each device: a bounded ring buffer
//! per address, keeping the most recent readings in arrival order.

use vstd::prelude::*;
use std::collections::{BTreeMap, VecDeque};

verus! {

broadcast use vstd::std_specs::btree::group_btree_axioms, vstd::laws_cmp::group_laws_cmp;

/// A log line kept for the web interface.
#[derive(Debug, Clone)]
pub struct LogEntry {
    pub timestamp: String,
    pub level: String,
    pub message: String,
}

/// Number of log lines kept in memory.
pub const LOG_CAPACITY: usize = 200;

/// The contents of a ring buffer of capacity `capacity` after pushing `x`
/// onto `s`: the oldest entry leaves when the buffer is full.
pub open spec fn pushed<T>(s: Seq<T>, capacity: nat, x: T) -> Seq<T> {
    if s.len() >= capacity && s.len() > 0 {
        s.drop_first().push(x)
    } else {
        s.push(x)
    }
}

/// Ring buffer keeping the last `capacity` entries, oldest first.
pub struct RingBuffer<T> {
    buffer: VecDeque<T>,
    capacity: usize,
}

impl<T> View for RingBuffer<T> {
    type V = Seq<T>;

    closed spec fn view(&self) -> Seq<T> {
        self.buffer@
    }
}

impl<T> RingBuffer<T> {
    /// The capacity given at creation.
    pub closed spec fn spec_capacity(&self) -> nat {
        self.capacity as nat
    }

    /// An empty buffer of capacity `capacity`.
    pub fn new(capacity: usize) -> (b: Self)
        ensures
            b@ == Seq::<T>::empty(),
            b.spec_capacity() == capacity,
    {
        RingBuffer { buffer: VecDeque::with_capacity(capacity), capacity }
    }

    /// Appends `x`, dropping the oldest entry when the buffer is full.
    pub fn push(&mut self, x: T)
        ensures
            final(self)@ == pushed(old(self)@, old(self).spec_capacity(), x),
            final(self).spec_capacity() == old(self).spec_capacity(),
    {
        if self.buffer.len() >= self.capacity {
            let _ = self.buffer.pop_front();
            proof {
                if old(self)@.len() > 0 {
                    assert(old(self)@.subrange(1, old(self)@.len() as int) =~= old(self)@.drop_first());
                }
            }
        }
        self.buffer.push_back(x);
    }

    /// The most recent entry, if any.
    pub fn latest(&self) -> (r: Option<&T>)
        ensures
            self@.len() == 0 ==> r is None,
            self@.len() > 0 ==> r == Some(&self@.last()),
    {
        let n = self.buffer.len();
        if n == 0 {
            None
        } else {
            Some(&self.buffer[n - 1])
        }
    }

    /// Number of entries.
    pub fn len(&self) -> (n: usize)
        ensures
            n == self@.len(),
    {
        self.buffer.len()
    }

    /// Up to `limit` entries, most recent first, each cloned.
    pub fn recent(&self, limit: usize) -> (v: Vec<T>)
        where
            T: Clone,
        ensures
            v@.len() == (if limit < self@.len() { limit as int } else { self@.len() as int }),
            forall|i: int| 0 <= i < v@.len() ==> cloned(self@[self@.len() - 1 - i], #[trigger] v@[i]),
    {
        let n = self.buffer.len();
        let m = if limit < n { limit } else { n };
        let mut v: Vec<T> = Vec::new();
        let mut i: usize = 0;
        while i < m
            invariant
                i <= m,
                m <= n,
                n == self@.len(),
                v@.len() == i,
                forall|k: int| 0 <= k < i ==> cloned(self@[n - 1 - k], #[trigger] v@[k]),
            decreases m - i,
        {
            let x = self.buffer[n - 1 - i].clone();
            v.push(x);
            i = i + 1;
        }
        v
    }
}

/// Every push keeps at most the capacity (or one entry when the capacity is 0),
/// keeps the order of arrival, and makes the pushed entry the latest.
pub proof fn lemma_ring_buffer_push<T>(s: Seq<T>, capacity: nat, x: T)
    requires
        s.len() <= (if capacity == 0 { 1 } else { capacity }),
    ensures
        pushed(s, capacity, x).len() <= (if capacity == 0 { 1 } else { capacity }),
        pushed(s, capacity, x).last() == x,
        s.len() < capacity ==> pushed(s, capacity, x) == s.push(x),
        pushed(s, capacity, x).drop_last() =~= (if s.len() >= capacity && s.len() > 0 {
            s.drop_first()
        } else {
            s
        }),
{
}

// =============================================================================
// Per-address store
// =============================================================================

/// Ring buffers of readings, one per device address.
pub struct SnapshotStore<T> {
    buffers: BTreeMap<u8, RingBuffer<T>>,
    ring_size: usize,
}

impl<T> SnapshotStore<T> {
    /// The readings kept for each address, oldest first.
    pub closed spec fn contents(&self) -> Map<u8, Seq<T>> {
        self.buffers@.map_values(|b: RingBuffer<T>| b@)
    }

    /// The capacity of every buffer.
    pub closed spec fn spec_ring_size(&self) -> nat {
        self.ring_size as nat
    }

    /// Every buffer has the store's capacity.
    pub closed spec fn wf(&self) -> bool {
        forall|a: u8| #[trigger] self.buffers@.contains_key(a) ==> self.buffers@[a].spec_capacity() == self.ring_size
    }

    /// A store with an empty buffer of capacity `ring_size` for each of `addresses`.
    pub fn new(addresses: &Vec<u8>, ring_size: usize) -> (s: Self)
        ensures
            s.wf(),
            s.spec_ring_size() == ring_size,
            forall|a: u8| #[trigger] s.contents().contains_key(a) <==> addresses@.contains(a),
            forall|a: u8| s.contents().contains_key(a) ==> #[trigger] s.contents()[a] == Seq::<T>::empty(),
    {
        let mut buffers: BTreeMap<u8, RingBuffer<T>> = BTreeMap::new();
        let mut i: usize = 0;
        while i < addresses.len()
            invariant
                i <= addresses@.len(),
                forall|a: u8| #[trigger] buffers@.contains_key(a) <==> addresses@.subrange(0, i as int).contains(a),
                forall|a: u8|
                    buffers@.contains_key(a) ==> (#[trigger] buffers@[a])@ == Seq::<T>::empty()
                        && buffers@[a].spec_capacity() == ring_size,
            decreases addresses.len() - i,
        {
            let a = addresses[i];
            buffers.insert(a, RingBuffer::new(ring_size));
            proof {
                assert forall|b: u8| #[trigger] buffers@.contains_key(b) <==> addresses@.subrange(0, i + 1).contains(b) by {
                    let pre = addresses@.subrange(0, i as int);
                    let next = addresses@.subrange(0, i + 1);
                    assert(next =~= pre.push(a));
                    if pre.contains(b) {
                        let k = choose|k: int| 0 <= k < pre.len() && pre[k] == b;
                        assert(next[k] == b);
                    }
                    if next.contains(b) && b != a {
                        let k = choose|k: int| 0 <= k < next.len() && next[k] == b;
                        assert(pre[k] == b);
                    }
                    assert(next[i as int] == a);
                }
            }
            i = i + 1;
        }
        assert(addresses@.subrange(0, i as int) =~= addresses@);
        let s = SnapshotStore { buffers, ring_size };
        proof {
            assert forall|a: u8| #[trigger] s.contents().contains_key(a) <==> addresses@.contains(a) by {}
            assert forall|a: u8| s.contents().contains_key(a) implies #[trigger] s.contents()[a] == Seq::<T>::empty() by {}
        }
        s
    }

    /// Records reading `x` of address `addr` (creating its buffer on first use).
    pub fn on_snapshot(&mut self, addr: u8, x: T)
        requires
            old(self).wf(),
        ensures
            final(self).wf(),
            final(self).spec_ring_size() == old(self).spec_ring_size(),
            final(self).contents() == old(self).contents().insert(
                addr,
                pushed(
                    if old(self).contents().contains_key(addr) {
                        old(self).contents()[addr]
                    } else {
                        Seq::<T>::empty()
                    },
                    old(self).spec_ring_size(),
                    x,
                ),
            ),
    {
        let mut buf = match self.buffers.remove(&addr) {
            Some(b) => b,
            None => RingBuffer::new(self.ring_size),
        };
        buf.push(x);
        self.buffers.insert(addr, buf);
        proof {
            assert(self.contents() =~= old(self).contents().insert(
                addr,
                pushed(
                    if old(self).contents().contains_key(addr) {
                        old(self).contents()[addr]
                    } else {
                        Seq::<T>::empty()
                    },
                    old(self).spec_ring_size(),
                    x,
                ),
            ));
        }
    }

    /// The latest reading of address `addr`, cloned.
    pub fn latest_for(&self, addr: u8) -> (r: Option<T>)
        where
            T: Clone,
        ensures
            !self.contents().contains_key(addr) || self.contents()[addr].len() == 0 ==> r is None,
            self.contents().contains_key(addr) && self.contents()[addr].len() > 0 ==> r is Some && cloned(
                self.contents()[addr].last(),
                r->0,
            ),
    {
        match self.buffers.get(&addr) {
            Some(b) => match b.latest() {
                Some(x) => Some(x.clone()),
                None => None,
            },
            None => None,
        }
    }

    /// Up to `limit` readings of address `addr`, most recent first, cloned.
    pub fn history_for(&self, addr: u8, limit: usize) -> (v: Vec<T>)
        where
            T: Clone,
        ensures
            !self.contents().contains_key(addr) ==> v@.len() == 0,
            self.contents().contains_key(addr) ==> {
                let s = self.contents()[addr];
                &&& v@.len() == (if limit < s.len() { limit as int } else { s.len() as int })
                &&& forall|i: int| 0 <= i < v@.len() ==> cloned(s[s.len() - 1 - i], #[trigger] v@[i])
            },
    {
        match self.buffers.get(&addr) {
            Some(b) => b.recent(limit),
            None => Vec::new(),
        }
    }

    /// The number of readings kept for address `addr`, if it has a buffer.
    pub fn count_for(&self, addr: u8) -> (n: Option<usize>)
        ensures
            !self.contents().contains_key(addr) ==> n is None,
            self.contents().contains_key(addr) ==> n is Some && n->0 == self.contents()[addr].len(),
    {
        match self.buffers.get(&addr) {
            Some(b) => Some(b.len()),
            None => None,
        }
    }

    /// Every address that has a buffer, by increasing address, with the
    /// number of readings kept for it (an address is online when it has one).
    pub fn buffer_status(&self) -> (v: Vec<(u8, usize)>)
        ensures
            v@.len() == buffered_addresses(self.contents(), 256).len(),
            forall|i: int|
                0 <= i < v@.len() ==> {
                    let a = buffered_addresses(self.contents(), 256)[i];
                    &&& (#[trigger] v@[i]).0 == a
                    &&& v@[i].1 == self.contents()[a].len()
                },
    {
        let mut v: Vec<(u8, usize)> = Vec::new();
        let mut a: u16 = 0;
        while a < 256
            invariant
                a <= 256,
                v@.len() == buffered_addresses(self.contents(), a as nat).len(),
                forall|i: int|
                    0 <= i < v@.len() ==> {
                        let b = buffered_addresses(self.contents(), a as nat)[i];
                        &&& (#[trigger] v@[i]).0 == b
                        &&& v@[i].1 == self.contents()[b].len()
                    },
            decreases 256 - a,
        {
            let r = self.count_for(a as u8);
            assert((a + 1 - 1) as u8 == a as u8);
            match r {
                Some(n) => {
                    v.push((a as u8, n));
                },
                None => {},
            }
            a = a + 1;
        }
        v
    }

    /// The latest reading of every address that has one, by increasing address.
    pub fn latest_all(&self) -> (v: Vec<T>)
        where
            T: Clone,
        ensures
            v@.len() == filled_addresses(self.contents(), 256).len(),
            forall|i: int|
                0 <= i < v@.len() ==> cloned(
                    self.contents()[filled_addresses(self.contents(), 256)[i]].last(),
                    #[trigger] v@[i],
                ),
    {
        let mut v: Vec<T> = Vec::new();
        let mut a: u16 = 0;
        while a < 256
            invariant
                a <= 256,
                v@.len() == filled_addresses(self.contents(), a as nat).len(),
                forall|i: int|
                    0 <= i < v@.len() ==> cloned(
                        self.contents()[filled_addresses(self.contents(), a as nat)[i]].last(),
                        #[trigger] v@[i],
                    ),
            decreases 256 - a,
        {
            let r = self.latest_for(a as u8);
            assert((a + 1 - 1) as u8 == a as u8);
            match r {
                Some(x) => {
                    v.push(x);
                },
                None => {},
            }
            a = a + 1;
        }
        v
    }
}

/// The addresses below `k` that have a buffer, in increasing order.
pub open spec fn buffered_addresses<T>(m: Map<u8, Seq<T>>, k: nat) -> Seq<u8>
    decreases k,
{
    if k == 0 {
        Seq::empty()
    } else {
        let prev = buffered_addresses(m, (k - 1) as nat);
        let a = (k - 1) as u8;
        if m.contains_key(a) {
            prev.push(a)
        } else {
            prev
        }
    }
}

/// The addresses below `k` whose buffer holds at least one reading, in
/// increasing order.
pub open spec fn filled_addresses<T>(m: Map<u8, Seq<T>>, k: nat) -> Seq<u8>
    decreases k,
{
    if k == 0 {
        Seq::empty()
    } else {
        let prev = filled_addresses(m, (k - 1) as nat);
        let a = (k - 1) as u8;
        if m.contains_key(a) && m[a].len() > 0 {
            prev.push(a)
        } else {
            prev
        }
    }
}

/// What a store gives back of a write: right after `on_snapshot(addr, x)`,
/// the latest reading of `addr` is `x`, and the readings of every other
/// address are unchanged.
pub proof fn lemma_store_read_after_write<T>(
    before: Map<u8, Seq<T>>,
    ring_size: nat,
    addr: u8,
    x: T,
    other: u8,
)
    requires
        other != addr,
    ensures
        ({
            let after = before.insert(
                addr,
                pushed(if before.contains_key(addr) { before[addr] } else { Seq::<T>::empty() }, ring_size, x),
            );
            &&& after.contains_key(addr)
            &&& after[addr].len() > 0
            &&& after[addr].last() == x
            &&& after.contains_key(other) == before.contains_key(other)
            &&& before.contains_key(other) ==> after[other] == before[other]
        }),
{
}

} // verus!
