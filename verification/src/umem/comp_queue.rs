//! The queue that hands transmitted frames back.

use crate::ring::{self, XskRingCons};
use crate::slots;
use crate::socket::Socket;
use vstd::prelude::*;
use vstd::slice::slice_subrange;

verus! {

/// Used to transfer ownership of UMEM frames from kernel space to user
/// space.
///
/// Frames received in this queue are those that have been sent.
#[derive(Debug)]
pub struct CompQueue {
    ring: XskRingCons<u64>,
    _socket: Socket,
}

impl CompQueue {
    /// The queue's ring.
    pub closed spec fn ring_view(self) -> XskRingCons<u64> {
        self.ring
    }

    /// The queue's socket.
    pub closed spec fn socket_view(self) -> Socket {
        self._socket
    }

    /// The queue's ring is well-formed, and between calls nothing is
    /// peeked at on it that has not been released.
    pub open spec fn wf(self) -> bool {
        &&& self.ring_view().wf()
        &&& self.ring_view().settled()
    }

    /// The frame addresses ready to be consumed, oldest first.
    pub open spec fn pending(self) -> Seq<u64> {
        self.ring_view().pending()
    }

    /// How the queue is left by consuming up to `nb` addresses into
    /// `addrs`, and how it leaves those, `cnt` of them updated.
    pub open spec fn consumed(
        self,
        nb: u32,
        addrs: Seq<u64>,
        cnt: usize,
        after: Self,
        addrs_after: Seq<u64>,
    ) -> bool {
        &&& cnt == if nb == 0 {
            0
        } else {
            self.ring_view().nb_within(nb)
        }
        &&& cnt <= addrs.len()
        &&& cnt <= self.pending().len()
        &&& addrs_after =~= self.pending().take(cnt as int) + addrs.skip(cnt as int)
        &&& after.pending() =~= self.pending().skip(cnt as int)
        &&& after.ring_view() == if nb == 0 {
            self.ring_view()
        } else {
            self.ring_view().consumed_for(nb)
        }
        &&& after.wf()
        &&& after.socket_view() == self.socket_view()
    }

    /// A queue on `ring`, which belongs to `socket`.
    pub fn new(ring: XskRingCons<u64>, socket: Socket) -> (r: Self)
        requires
            ring.wf(),
            ring.settled(),
        ensures
            r.wf(),
            r.ring_view() == ring,
            r.socket_view() == socket,
    {
        CompQueue { ring, _socket: socket }
    }

    /// Update `addrs` with addresses of frames whose contents have been
    /// sent and may now be used again. Returns the number of elements
    /// of `addrs` which have been updated. The addresses are offsets
    /// within this queue's UMEM.
    ///
    /// The number of entries updated will be less than or equal to the
    /// length of `addrs`. Entries will be updated sequentially from the
    /// start of `addrs` until the end.
    ///
    /// Positions on the ring are 32 bits wide, and so is the number of
    /// entries asked for: it is the length of `addrs` modulo 2^32.
    #[verifier::rlimit(40)]
    pub fn consume(&mut self, addrs: &mut [u64]) -> (cnt: usize)
        requires
            old(self).wf(),
        ensures
            old(self).consumed(
                (old(addrs)@.len() % 0x1_0000_0000) as u32,
                old(addrs)@,
                cnt,
                *final(self),
                final(addrs)@,
            ),
            // How many, by what is pending and by the ring's positions.
            ({
                let nb = old(addrs)@.len() % 0x1_0000_0000;
                &&& cnt == 0 ==> nb == 0 || old(self).pending().len() == 0
                &&& old(self).ring_view().cached_prod == old(self).ring_view().producer || old(self).ring_view().cached_prod == old(self).ring_view().consumer ==> cnt == if nb
                    < old(self).pending().len() {
                    nb as int
                } else {
                    old(self).pending().len() as int
                }
                &&& old(self).ring_view().cached_prod != old(self).ring_view().consumer ==> cnt == if nb < old(self).ring_view().cached_prod.wrapping_sub(
                    old(self).ring_view().consumer,
                ) {
                    nb as int
                } else {
                    old(self).ring_view().cached_prod.wrapping_sub(old(self).ring_view().consumer) as int
                }
                &&& final(self).ring_view() == (XskRingCons {
                    consumer: old(self).ring_view().consumer.wrapping_add(cnt as u32),
                    cached_cons: old(self).ring_view().cached_cons.wrapping_add(cnt as u32),
                    cached_prod: if nb > 0 && old(self).ring_view().cached_prod == old(self).ring_view().cached_cons {
                        old(self).ring_view().producer
                    } else {
                        old(self).ring_view().cached_prod
                    },
                    ..old(self).ring_view()
                })
            }),
            // The oldest entries lie in the slots from the consumer
            // position on. They come first, and nothing after them has
            // changed.
            final(addrs)@.len() == old(addrs)@.len(),
            forall|i: int|
                0 <= i < cnt ==> (#[trigger] final(addrs)@[i]) == old(self).ring_view().ring@[(
                old(self).ring_view().consumer + i) % old(self).ring_view().size as int],
            forall|i: int|
                cnt <= i < old(addrs)@.len() ==> #[trigger] final(addrs)@[i] == old(addrs)@[i],
    {
        let nb: u32 = ring::batch_size(addrs.len());
        if nb == 0 {
            return 0;
        }
        proof {
            ring::positions_of_a_consumer_ring(self.ring);
        }
        let mut idx: u32 = 0;
        let cnt = self.ring.peek(nb, &mut idx);
        if cnt > 0 {
            let (dst, _) = addrs.split_at_mut(cnt as usize);
            copy_comp_addrs(&self.ring, idx, dst);
            self.ring.release(cnt);
        }
        cnt as usize
    }

    /// Same as [`consume`](Self::consume) but for a single frame
    /// address.
    #[verifier::rlimit(40)]
    pub fn consume_one(&mut self, addr: &mut u64) -> (cnt: usize)
        requires
            old(self).wf(),
        ensures
            cnt == if old(self).pending().len() > 0 {
                1
            } else {
                0int
            },
            old(self).consumed(1, seq![*old(addr)], cnt, *final(self), seq![*final(addr)]),
            // One if there is one, by the ring's positions: the entry in
            // the slot of the consumer position.
            cnt == if old(self).ring_view().producer != old(self).ring_view().consumer {
                1int
            } else {
                0
            },
            cnt > 0 ==> *final(addr) == old(self).ring_view().ring@[old(self).ring_view().consumer as int % old(self).ring_view().size as int],
            cnt == 0 ==> *final(addr) == *old(addr),
            final(self).ring_view() == (XskRingCons {
                    consumer: old(self).ring_view().consumer.wrapping_add(cnt as u32),
                    cached_cons: old(self).ring_view().cached_cons.wrapping_add(cnt as u32),
                    cached_prod: if 1 > 0 && old(self).ring_view().cached_prod == old(self).ring_view().cached_cons {
                        old(self).ring_view().producer
                    } else {
                        old(self).ring_view().cached_prod
                    },
                    ..old(self).ring_view()
                }),
    {
        proof {
            ring::positions_of_a_consumer_ring(self.ring);
        }
        let mut idx: u32 = 0;
        let cnt = self.ring.peek(1, &mut idx);
        if cnt > 0 {
            *addr = self.ring.entry(idx);
            self.ring.release(cnt);
        }
        cnt as usize
    }

    /// The number of entries ready to be consumed, up to `nb`.
    ///
    /// Answers from the cached producer position unless that cache is
    /// empty, in which case the current position is read. A cached
    /// position only ever trails the real one, so the count is never an
    /// overestimate.
    ///
    /// Note that passing the ring size does not give an exact count,
    /// since a non-empty cache is never refreshed. See
    /// [`nb_avail_exact`](Self::nb_avail_exact) for that.
    pub fn nb_avail(&mut self, nb: u32) -> (n: u32)
        requires
            old(self).wf(),
        ensures
            n == old(self).ring_view().nb_within(nb),
            // What the cache accounts for, or what there is if that is
            // nothing, up to `nb`.
            ({
                let known = if old(self).ring_view().cached_prod != old(self).ring_view().consumer {
                    old(self).ring_view().cached_prod.wrapping_sub(old(self).ring_view().consumer)
                } else {
                    old(self).ring_view().producer.wrapping_sub(old(self).ring_view().consumer)
                };
                n == if nb < known {
                    nb
                } else {
                    known
                }
            }),
            final(self).ring_view() == (XskRingCons {
                cached_prod: if old(self).ring_view().cached_prod != old(self).ring_view().consumer {
                    old(self).ring_view().cached_prod
                } else {
                    old(self).ring_view().producer
                },
                ..old(self).ring_view()
            }),
            n <= old(self).pending().len(),
            n <= nb,
            final(self).pending() == old(self).pending(),
            final(self).ring_view() == old(self).ring_view().refreshed(),
            final(self).wf(),
            final(self).socket_view() == old(self).socket_view(),
    {
        self.ring.nb_avail(nb)
    }

    /// The number of entries ready to be consumed.
    ///
    /// Reads the current producer position rather than a cached one, so
    /// this can be used to watch a backlog without consuming it. See
    /// [`nb_avail`](Self::nb_avail) for the cached count.
    pub fn nb_avail_exact(&mut self) -> (n: u32)
        requires
            old(self).wf(),
        ensures
            n == old(self).pending().len(),
            n == old(self).ring_view().producer.wrapping_sub(old(self).ring_view().consumer),
            final(self).pending() == old(self).pending(),
            final(self).ring_view() == (XskRingCons {
                cached_prod: old(self).ring_view().producer,
                ..old(self).ring_view()
            }),
            final(self).wf(),
            final(self).socket_view() == old(self).socket_view(),
    {
        ring::cons_nb_avail_exact(&mut self.ring)
    }

    /// The queue's ring.
    pub fn ring(&self) -> (r: &XskRingCons<u64>)
        ensures
            *r == self.ring_view(),
    {
        &self.ring
    }

    /// The kernel is done sending the frames at `addrs`, and has put
    /// them on the ring.
    pub fn kernel_produce(&mut self, addrs: &[u64])
        requires
            old(self).wf(),
            old(self).pending().len() + addrs@.len() <= old(self).ring_view().size,
        ensures
            final(self).wf(),
            final(self).pending() == old(self).pending() + addrs@,
            final(self).ring_view().ring@ == slots::written(
                old(self).ring_view().ring@,
                old(self).ring_view().producer,
                addrs@,
            ),
            final(self).ring_view() == (XskRingCons {
                producer: old(self).ring_view().producer.wrapping_add(addrs@.len() as u32),
                ring: final(self).ring_view().ring,
                ..old(self).ring_view()
            }),
            final(self).socket_view() == old(self).socket_view(),
    {
        self.ring.kernel_produce(addrs);
    }
}

/// Copies a batch of completion addresses while handling ring
/// wrap-around once. At most two contiguous source ranges are needed.
pub fn copy_comp_addrs(ring: &XskRingCons<u64>, idx: u32, dst: &mut [u64])
    requires
        ring.laid_out(),
        old(dst)@.len() <= ring.size,
    ensures
        final(dst)@ == slots::entries_from(ring.ring@, idx, old(dst)@.len() as int),
        final(dst)@.len() == old(dst)@.len(),
        forall|i: int|
            0 <= i < old(dst)@.len() ==> #[trigger] final(dst)@[i] == ring.ring@[(idx + i)
                % ring.size as int],
{
    proof {
        slots::entries_lie_round_the_ring(ring.ring@, idx, dst@.len() as int);
        slots::mask_gives_slot(ring.size, idx);
        slots::entries_in_two_ranges(ring.ring@, idx, dst@.len() as int);
    }
    let start: usize = (idx & ring.mask) as usize;
    let room: usize = ring.size as usize - start;
    let first_count: usize = if room < dst.len() {
        room
    } else {
        dst.len()
    };
    let second_count: usize = dst.len() - first_count;
    let ring_addrs = ring.ring.as_slice();
    let (first, second) = dst.split_at_mut(first_count);
    copy_comp_addr_range(slice_subrange(ring_addrs, start, start + first_count), first);
    if second_count > 0 {
        copy_comp_addr_range(slice_subrange(ring_addrs, 0, second_count), second);
    }
}

/// Copies one range of addresses.
fn copy_comp_addr_range(src: &[u64], dst: &mut [u64])
    requires
        src@.len() == old(dst)@.len(),
    ensures
        final(dst)@ == src@,
{
    let count = src.len();
    let mut i: usize = 0;
    while i < count
        invariant
            i <= count,
            count == src@.len(),
            count == dst@.len(),
            forall|j: int| 0 <= j < i ==> dst@[j] == src@[j],
        decreases count - i,
    {
        dst[i] = src[i];
        i += 1;
    }
    assert(dst@ =~= src@);
}

/// Consuming into the same addresses has one outcome: it does not
/// matter whether a single address goes through [`CompQueue::consume`]
/// or [`CompQueue::consume_one`].
pub proof fn consuming_has_one_outcome(
    queue: CompQueue,
    nb: u32,
    addrs: Seq<u64>,
    one: (usize, CompQueue, Seq<u64>),
    other: (usize, CompQueue, Seq<u64>),
)
    requires
        queue.consumed(nb, addrs, one.0, one.1, one.2),
        queue.consumed(nb, addrs, other.0, other.1, other.2),
    ensures
        one == other,
{
}

/// What a completion queue's positions say of it: `producer - consumer` entries
/// are there to be consumed, the oldest of them in slot
/// `consumer % size` and each further one in the next.
pub proof fn positions_of_a_completion_queue(queue: CompQueue)
    ensures
        queue.wf() <==> queue.ring_view().wf() && queue.ring_view().cached_cons
            == queue.ring_view().consumer,
        queue.wf() ==> {
            let ring = queue.ring_view();
            &&& queue.pending().len() == ring.producer.wrapping_sub(ring.consumer)
            &&& forall|i: int|
                0 <= i < queue.pending().len() ==> #[trigger] queue.pending()[i] == ring.ring@[(
                ring.consumer + i) % ring.size as int]
        },
{
    if queue.wf() {
        ring::positions_of_a_consumer_ring(queue.ring_view());
    }
}

/// Consuming yields as many entries as were asked for or as there are,
/// whichever is fewer, if the cached producer position is up to date or
/// accounts for nothing. Otherwise it yields as many as that accounts
/// for, up to what was asked for. It yields none only if none were asked
/// for or there are none.
pub proof fn consuming_yields_what_there_is(
    queue: CompQueue,
    nb: u32,
    buf: Seq<u64>,
    cnt: usize,
    after: CompQueue,
    buf_after: Seq<u64>,
)
    requires
        queue.wf(),
        queue.consumed(nb, buf, cnt, after, buf_after),
    ensures
        ({
            let ring = queue.ring_view();
            let pending = queue.pending().len();
            let known = ring.cached_prod.wrapping_sub(ring.consumer);
            &&& cnt == 0 <==> nb == 0 || pending == 0
            &&& known == 0 || ring.cached_prod == ring.producer ==> cnt == if nb < pending {
                nb as int
            } else {
                pending as int
            }
            &&& known > 0 ==> cnt == if nb < known {
                nb
            } else {
                known
            }
        }),
{
}

/// What consuming yields comes off the ring: the entries, oldest first,
/// are at the start of the buffer and no longer pending, the rest of
/// both is as it was, and the kernel has got as many slots back.
pub proof fn what_is_consumed_comes_off_the_ring(
    queue: CompQueue,
    nb: u32,
    buf: Seq<u64>,
    cnt: usize,
    after: CompQueue,
    buf_after: Seq<u64>,
)
    requires
        queue.wf(),
        queue.consumed(nb, buf, cnt, after, buf_after),
    ensures
        buf_after.len() == buf.len(),
        forall|i: int| 0 <= i < cnt ==> (#[trigger] buf_after[i]) == queue.pending()[i],
        forall|i: int| cnt <= i < buf.len() ==> #[trigger] buf_after[i] == buf[i],
        after.pending().len() == queue.pending().len() - cnt,
        forall|i: int|
            0 <= i < after.pending().len() ==> #[trigger] after.pending()[i]
                == queue.pending()[cnt + i],
        after.ring_view().consumer.wrapping_sub(queue.ring_view().consumer) == cnt,
        after.ring_view().cached_cons == after.ring_view().consumer,
        after.ring_view().producer == queue.ring_view().producer,
        after.ring_view().ring == queue.ring_view().ring,
        after.ring_view().size == queue.ring_view().size,
        after.ring_view().mask == queue.ring_view().mask,
        after.ring_view().flags == queue.ring_view().flags,
        after.ring_view().cached_prod == if nb > 0 && queue.ring_view().cached_prod
            == queue.ring_view().consumer {
            queue.ring_view().producer
        } else {
            queue.ring_view().cached_prod
        },
{
}

} // verus!
