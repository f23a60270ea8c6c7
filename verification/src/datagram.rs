//! Bounded queue of whole datagrams. A full queue rejects the newest
//! datagram: what was queued first stays and is handed out first.

use std::collections::VecDeque;
use vstd::prelude::*;
use vstd::slice::slice_to_vec;

verus! {

/// Number of datagrams a connection's queue holds unless told otherwise.
pub const DEFAULT_DATAGRAM_LIMIT: usize = 1000;

/// Queue contents after one datagram was offered.
pub open spec fn after_offer(held: Seq<Seq<u8>>, limit: nat, datagram: Seq<u8>) -> Seq<Seq<u8>> {
    if held.len() < limit {
        held.push(datagram)
    } else {
        held
    }
}

/// Queue contents after the datagrams were offered one after the other.
pub open spec fn after_offers(held: Seq<Seq<u8>>, limit: nat, offered: Seq<Seq<u8>>) -> Seq<
    Seq<u8>,
>
    decreases offered.len(),
{
    if offered.len() == 0 {
        held
    } else {
        after_offers(after_offer(held, limit, offered[0]), limit, offered.skip(1))
    }
}

/// Number of datagrams among `offered` that a queue holding `held` rejects.
pub open spec fn rejected_count(held: nat, limit: nat, offered: nat) -> nat {
    if held >= limit {
        offered
    } else if held + offered <= limit {
        0
    } else {
        (held + offered - limit) as nat
    }
}

/// Bounded FIFO queue of datagrams.
pub struct DatagramQueue {
    items: VecDeque<Vec<u8>>,
    max_items: usize,
    dropped: u64,
}

impl View for DatagramQueue {
    type V = Seq<Seq<u8>>;

    /// The queued datagrams, oldest first.
    closed spec fn view(&self) -> Seq<Seq<u8>> {
        Seq::new(self.items@.len(), |i: int| self.items@[i]@)
    }
}

impl DatagramQueue {
    /// The largest number of datagrams the queue holds.
    pub closed spec fn limit(&self) -> nat {
        self.max_items as nat
    }

    /// How many datagrams were rejected so far; the count stops at
    /// `u64::MAX`.
    pub closed spec fn spec_dropped(&self) -> nat {
        self.dropped as nat
    }

    /// The queue never holds more datagrams than its limit.
    pub open spec fn wf(&self) -> bool {
        self@.len() <= self.limit()
    }

    /// An empty queue that holds at most `max_items` datagrams.
    pub fn new(max_items: usize) -> (queue: DatagramQueue)
        ensures
            queue.wf(),
            queue@ == Seq::<Seq<u8>>::empty(),
            queue.limit() == max_items,
            queue.spec_dropped() == 0,
    {
        let queue = DatagramQueue { items: VecDeque::new(), max_items, dropped: 0 };
        assert(queue@ =~= Seq::<Seq<u8>>::empty());
        queue
    }

    /// Queues a copy of `datagram`, whole, if the queue is not full. A full
    /// queue is left as it is and counts the rejection. Returns whether the
    /// datagram was queued.
    pub fn push(&mut self, datagram: &[u8]) -> (queued: bool)
        requires
            old(self).wf(),
        ensures
            final(self).wf(),
            queued <==> old(self)@.len() < old(self).limit(),
            final(self)@ == after_offer(old(self)@, old(self).limit(), datagram@),
            final(self).limit() == old(self).limit(),
            final(self).spec_dropped() == if queued || old(self).spec_dropped() == u64::MAX {
                old(self).spec_dropped()
            } else {
                old(self).spec_dropped() + 1
            },
    {
        if self.items.len() < self.max_items {
            let owned: Vec<u8> = slice_to_vec(datagram);
            self.items.push_back(owned);
            assert(self@ =~= old(self)@.push(datagram@));
            true
        } else {
            if self.dropped < u64::MAX {
                self.dropped = self.dropped + 1;
            }
            assert(self@ =~= old(self)@);
            false
        }
    }

    /// Takes the oldest datagram out of the queue.
    pub fn take(&mut self) -> (datagram: Option<Vec<u8>>)
        requires
            old(self).wf(),
        ensures
            final(self).wf(),
            final(self).limit() == old(self).limit(),
            final(self).spec_dropped() == old(self).spec_dropped(),
            old(self)@.len() == 0 ==> datagram is None && final(self)@ == old(self)@,
            old(self)@.len() > 0 ==> datagram is Some && datagram->Some_0@ == old(self)@[0]
                && final(self)@ == old(self)@.skip(1),
    {
        let front: Option<Vec<u8>> = self.items.pop_front();
        match front {
            Some(bytes) => {
                assert(self@ =~= old(self)@.skip(1));
                Some(bytes)
            },
            None => {
                assert(self@ =~= old(self)@);
                None
            },
        }
    }

    /// Takes the oldest datagram out of the queue and copies its leading
    /// bytes into the start of `dest`, as many as fit; what does not fit is
    /// discarded. Returns the number of bytes copied, `None` when nothing is
    /// queued.
    pub fn pop(&mut self, dest: &mut [u8]) -> (copied: Option<usize>)
        requires
            old(self).wf(),
        ensures
            final(self).wf(),
            final(self).limit() == old(self).limit(),
            final(self).spec_dropped() == old(self).spec_dropped(),
            final(dest)@.len() == old(dest)@.len(),
            old(self)@.len() == 0 ==> copied is None && final(self)@ == old(self)@ && final(dest)@
                == old(dest)@,
            old(self)@.len() > 0 ==> copied == Some(
                delivered_len(old(self)@[0].len(), old(dest)@.len()),
            ) && final(self)@ == old(self)@.skip(1) && final(dest)@ == old(self)@[0].take(
                delivered_len(old(self)@[0].len(), old(dest)@.len()) as int,
            ) + old(dest)@.skip(delivered_len(old(self)@[0].len(), old(dest)@.len()) as int),
    {
        let front: Option<Vec<u8>> = self.take();
        match front {
            Some(bytes) => {
                let count: usize = if bytes.len() <= dest.len() {
                    bytes.len()
                } else {
                    dest.len()
                };
                let mut i: usize = 0;
                while i < count
                    invariant
                        i <= count,
                        count <= bytes@.len(),
                        count <= old(dest)@.len(),
                        dest@.len() == old(dest)@.len(),
                        dest@ == bytes@.take(i as int) + old(dest)@.skip(i as int),
                    decreases count - i,
                {
                    dest[i] = bytes[i];
                    i = i + 1;
                }
                Some(count)
            },
            None => None,
        }
    }

    /// Number of queued datagrams.
    pub fn len(&self) -> (n: usize)
        ensures
            n == self@.len(),
    {
        self.items.len()
    }

    /// Whether nothing is queued.
    pub fn is_empty(&self) -> (empty: bool)
        ensures
            empty <==> self@.len() == 0,
    {
        self.items.len() == 0
    }

    /// How many datagrams were rejected so far.
    pub fn dropped(&self) -> (n: u64)
        ensures
            n == self.spec_dropped(),
    {
        self.dropped
    }
}

/// Number of bytes of a datagram of `size` bytes that a destination of `room`
/// bytes receives.
pub open spec fn delivered_len(size: nat, room: nat) -> usize {
    if size <= room {
        size as usize
    } else {
        room as usize
    }
}

/// Offering datagrams to a queue keeps the first ones that fit, in arrival
/// order, and rejects the rest.
pub proof fn lemma_offers_keep_oldest(held: Seq<Seq<u8>>, limit: nat, offered: Seq<Seq<u8>>)
    requires
        held.len() <= limit,
    ensures
        after_offers(held, limit, offered) == (held + offered).take(
            (held.len() + offered.len() - rejected_count(held.len(), limit, offered.len())) as int,
        ),
        after_offers(held, limit, offered).len() + rejected_count(
            held.len(),
            limit,
            offered.len(),
        ) == held.len() + offered.len(),
        after_offers(held, limit, offered).len() <= limit,
    decreases offered.len(),
{
    let kept = held.len() + offered.len() - rejected_count(held.len(), limit, offered.len());
    if offered.len() == 0 {
        assert((held + offered).take(kept as int) =~= held);
    } else {
        let next = after_offer(held, limit, offered[0]);
        let rest = offered.skip(1);
        lemma_offers_keep_oldest(next, limit, rest);
        if held.len() < limit {
            assert(next + rest =~= held + offered);
        } else {
            assert((held + rest).take(held.len() as int) =~= held);
            assert((held + offered).take(held.len() as int) =~= held);
        }
    }
}

/// A queue bounded at `limit` that is offered more than `limit` datagrams
/// while empty retains exactly the first `limit` of them, oldest first, and
/// rejects every later one.
pub proof fn lemma_overflow_retains_first(limit: nat, offered: Seq<Seq<u8>>)
    requires
        offered.len() >= limit,
    ensures
        after_offers(Seq::empty(), limit, offered) == offered.take(limit as int),
        after_offers(Seq::empty(), limit, offered).len() == limit,
        rejected_count(0, limit, offered.len()) == offered.len() - limit,
{
    lemma_offers_keep_oldest(Seq::empty(), limit, offered);
    assert(Seq::<Seq<u8>>::empty() + offered =~= offered);
}

} // verus!
