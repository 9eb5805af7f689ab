//! The queue that hands frames over to the kernel.

use crate::ring::{self, XskRingProd};
use crate::slots;
use crate::socket::Socket;
use vstd::prelude::*;

verus! {

/// What is left to do once frames have been produced.
#[derive(Debug, Clone, Copy, PartialEq, Eq, Structural)]
pub enum WakeupStep {
    /// Nothing: that many frames were produced.
    Done(usize),
    /// The kernel has to be woken up: that many frames were produced,
    /// and the outcome of waking it decides what is returned.
    Wakeup(usize),
}

impl WakeupStep {
    /// The step that follows on `cnt` frames having been produced on a
    /// ring with the flags `flags`.
    pub open spec fn after(cnt: usize, flags: u32) -> WakeupStep {
        if cnt > 0 && flags % 2 == 1 {
            WakeupStep::Wakeup(cnt)
        } else {
            WakeupStep::Done(cnt)
        }
    }

    /// The number of frames produced, or the error that waking up the
    /// kernel ended in. `woken` is the outcome of waking it up, if the
    /// step asks for that; otherwise it is not looked at.
    pub fn finish<E>(self, woken: Result<(), E>) -> (r: Result<usize, E>)
        ensures
            r == match self {
                WakeupStep::Done(cnt) => Ok::<usize, E>(cnt),
                WakeupStep::Wakeup(cnt) => match woken {
                    Ok(_) => Ok::<usize, E>(cnt),
                    Err(e) => Err::<usize, E>(e),
                },
            },
    {
        match self {
            WakeupStep::Done(cnt) => Ok(cnt),
            WakeupStep::Wakeup(cnt) => match woken {
                Ok(_) => Ok(cnt),
                Err(e) => Err(e),
            },
        }
    }
}

/// Used to transfer ownership of UMEM frames from user space to kernel
/// space.
///
/// These frames will be used to receive packets, and will eventually be
/// returned via the [`RxQueue`](crate::RxQueue).
#[derive(Debug)]
pub struct FillQueue {
    ring: XskRingProd<u64>,
    _socket: Socket,
}

impl FillQueue {
    /// The queue's ring.
    pub closed spec fn ring_view(self) -> XskRingProd<u64> {
        self.ring
    }

    /// The queue's socket.
    pub closed spec fn socket_view(self) -> Socket {
        self._socket
    }

    /// The queue's ring is well-formed, and between calls nothing is
    /// reserved on it that has not been submitted.
    pub open spec fn wf(self) -> bool {
        &&& self.ring_view().wf()
        &&& self.ring_view().settled()
    }

    /// The frame addresses that the kernel has yet to take, oldest
    /// first.
    pub open spec fn pending(self) -> Seq<u64> {
        self.ring_view().pending()
    }

    /// The number of free slots on the ring.
    pub open spec fn free(self) -> int {
        self.ring_view().free()
    }

    /// How the queue is left by handing `addrs` over to the kernel:
    /// all of them, if as many slots are free, or none.
    pub open spec fn produced(self, addrs: Seq<u64>, after: Self) -> bool {
        let ring = self.ring_view();
        let new = after.ring_view();
        let fits = addrs.len() <= self.free();
        let cnt = if fits {
            addrs.len() as u32
        } else {
            0
        };
        &&& after.wf()
        &&& after.socket_view() == self.socket_view()
        &&& after.pending() =~= if fits {
            self.pending() + addrs
        } else {
            self.pending()
        }
        &&& after.free() == self.free() - cnt
        &&& new.ring@ =~= if fits {
            slots::written(ring.ring@, ring.producer, addrs)
        } else {
            ring.ring@
        }
        &&& new == XskRingProd {
            cached_prod: ring.cached_prod.wrapping_add(cnt),
            producer: ring.producer.wrapping_add(cnt),
            cached_cons: if addrs.len() <= ring.cached_free() {
                ring.cached_cons
            } else {
                ring.consumer.wrapping_add(ring.size)
            },
            ring: new.ring,
            ..ring
        }
    }

    /// A queue on `ring`, which belongs to `socket`.
    pub fn new(ring: XskRingProd<u64>, socket: Socket) -> (r: Self)
        requires
            ring.wf(),
            ring.settled(),
        ensures
            r.wf(),
            r.ring_view() == ring,
            r.socket_view() == socket,
    {
        FillQueue { ring, _socket: socket }
    }

    /// Let the kernel know that the UMEM frame addresses in `addrs` may
    /// be used to receive data. Returns the number of frames submitted
    /// to the kernel.
    ///
    /// Note that if the length of `addrs` is greater than the number of
    /// available spaces on the underlying ring buffer then no frames at
    /// all will be handed over to the kernel.
    ///
    /// Once the frames have been submitted to this queue they should
    /// not be used again until consumed via the
    /// [`RxQueue`](crate::RxQueue).
    #[verifier::rlimit(40)]
    pub fn produce(&mut self, addrs: &[u64]) -> (cnt: usize)
        requires
            old(self).wf(),
        ensures
            cnt == if addrs@.len() <= old(self).free() {
                addrs@.len()
            } else {
                0
            },
            old(self).produced(addrs@, *final(self)),
            // All or nothing, by the ring's positions.
            cnt == if addrs@.len() <= old(self).ring_view().size - old(
                self,
            ).ring_view().producer.wrapping_sub(old(self).ring_view().consumer) {
                addrs@.len()
            } else {
                0
            },
            final(self).ring_view() == (XskRingProd {
                cached_prod: old(self).ring_view().cached_prod.wrapping_add(cnt as u32),
                producer: old(self).ring_view().producer.wrapping_add(cnt as u32),
                cached_cons: final(self).ring_view().cached_cons,
                ring: final(self).ring_view().ring,
                ..old(self).ring_view()
            }),
            // The cached position moves only if it accounts for too few
            // slots, and then to the kernel's.
            final(self).ring_view().cached_cons == if addrs@.len() <= old(
                self,
            ).ring_view().cached_cons.wrapping_sub(old(self).ring_view().cached_prod) {
                old(self).ring_view().cached_cons
            } else {
                old(self).ring_view().consumer.wrapping_add(old(self).ring_view().size)
            },
            // The addresses lie in the slots from the producer position
            // on, and no other slot has changed.
            final(self).ring_view().ring@.len() == old(self).ring_view().ring@.len(),
            cnt > 0 ==> forall|i: int|
                0 <= i < addrs@.len() ==> final(self).ring_view().ring@[(old(
                    self,
                ).ring_view().producer + i) % old(self).ring_view().size as int]
                    == #[trigger] addrs@[i],
            forall|s: int|
                0 <= s < old(self).ring_view().size && (s - old(self).ring_view().producer) % old(
                    self,
                ).ring_view().size as int >= cnt ==> #[trigger] final(self).ring_view().ring@[s]
                    == old(self).ring_view().ring@[s],
    {
        // No ring has this many slots, so asking for them is refused.
        let nb: u32 = if addrs.len() > u32::MAX as usize {
            u32::MAX
        } else {
            addrs.len() as u32
        };
        if nb == 0 {
            return 0;
        }
        let mut idx: u32 = 0;
        proof {
            slots::ring_size_bounds(self.ring.size);
        }
        let cnt = self.ring.reserve(nb, &mut idx);
        if cnt > 0 {
            copy_fill_addrs(&mut self.ring, idx, addrs);
            proof {
                let before = old(self).ring;
                slots::entries_are_written_round_the_ring(before.ring@, before.producer, addrs@);
                slots::written_reads_back(before.ring@, before.producer, addrs@);
                slots::written_keeps_earlier(
                    before.ring@,
                    before.consumer,
                    before.nb_pending() as int,
                    addrs@,
                );
            }
            self.ring.submit(cnt);
        }
        cnt as usize
    }

    /// Same as [`produce`](Self::produce) but for a single frame
    /// address.
    #[verifier::rlimit(40)]
    pub fn produce_one(&mut self, addr: &u64) -> (cnt: usize)
        requires
            old(self).wf(),
        ensures
            cnt == if old(self).free() > 0 {
                1
            } else {
                0int
            },
            old(self).produced(seq![*addr], *final(self)),
            // All or nothing, by the ring's positions.
            cnt == if 1 <= old(self).ring_view().size - old(
                self,
            ).ring_view().producer.wrapping_sub(old(self).ring_view().consumer) {
                1int
            } else {
                0
            },
            final(self).ring_view() == (XskRingProd {
                cached_prod: old(self).ring_view().cached_prod.wrapping_add(cnt as u32),
                producer: old(self).ring_view().producer.wrapping_add(cnt as u32),
                cached_cons: final(self).ring_view().cached_cons,
                ring: final(self).ring_view().ring,
                ..old(self).ring_view()
            }),
            // The cached position moves only if it accounts for too few
            // slots, and then to the kernel's.
            final(self).ring_view().cached_cons == if 1 <= old(
                self,
            ).ring_view().cached_cons.wrapping_sub(old(self).ring_view().cached_prod) {
                old(self).ring_view().cached_cons
            } else {
                old(self).ring_view().consumer.wrapping_add(old(self).ring_view().size)
            },
            final(self).ring_view().ring@ == if cnt > 0 {
                old(self).ring_view().ring@.update(
                    old(self).ring_view().producer as int % old(self).ring_view().size as int,
                    *addr,
                )
            } else {
                old(self).ring_view().ring@
            },
    {
        let mut idx: u32 = 0;
        let cnt = self.ring.reserve(1, &mut idx);
        if cnt > 0 {
            self.ring.write(idx, *addr);
            proof {
                let before = old(self).ring;
                slots::written_reads_back(before.ring@, before.producer, seq![*addr]);
                slots::written_keeps_earlier(
                    before.ring@,
                    before.consumer,
                    before.nb_pending() as int,
                    seq![*addr],
                );
            }
            self.ring.submit(cnt);
        }
        cnt as usize
    }

    /// What is left to do after `cnt` frames have been produced: waking
    /// up the kernel, if there were any and it asks for that.
    pub fn wakeup_step(&self, cnt: usize) -> (r: WakeupStep)
        ensures
            r == WakeupStep::after(cnt, self.ring_view().flags),
            r == WakeupStep::Wakeup(cnt) <==> cnt > 0 && self.ring_view().flags % 2 == 1,
            r == WakeupStep::Done(cnt) <==> cnt == 0 || self.ring_view().flags % 2 == 0,
    {
        if cnt > 0 && self.needs_wakeup() {
            WakeupStep::Wakeup(cnt)
        } else {
            WakeupStep::Done(cnt)
        }
    }

    /// Same as [`produce`](Self::produce) but wake up the kernel if
    /// required to let it know there are frames available that may be
    /// used to receive data.
    ///
    /// The waking up is left to the caller, who passes its outcome to
    /// [`WakeupStep::finish`].
    pub fn produce_and_wakeup(&mut self, addrs: &[u64]) -> (r: WakeupStep)
        requires
            old(self).wf(),
        ensures
            old(self).produced(addrs@, *final(self)),
            r == if addrs@.len() <= old(self).free() {
                WakeupStep::after(addrs@.len() as usize, old(self).ring_view().flags)
            } else {
                WakeupStep::Done(0)
            },
            r == if !(addrs@.len() <= old(self).ring_view().size - old(
                self,
            ).ring_view().producer.wrapping_sub(old(self).ring_view().consumer)) {
                WakeupStep::Done(0)
            } else if addrs@.len() > 0 && old(self).ring_view().flags % 2 == 1 {
                WakeupStep::Wakeup(addrs@.len() as usize)
            } else {
                WakeupStep::Done(addrs@.len() as usize)
            },
    {
        let cnt = self.produce(addrs);
        self.wakeup_step(cnt)
    }

    /// Same as [`produce_and_wakeup`](Self::produce_and_wakeup) but for
    /// a single frame address.
    pub fn produce_one_and_wakeup(&mut self, addr: &u64) -> (r: WakeupStep)
        requires
            old(self).wf(),
        ensures
            old(self).produced(seq![*addr], *final(self)),
            r == if old(self).free() > 0 {
                WakeupStep::after(1, old(self).ring_view().flags)
            } else {
                WakeupStep::Done(0)
            },
            r == if !(old(self).ring_view().producer.wrapping_sub(old(self).ring_view().consumer) < old(
                self,
            ).ring_view().size) {
                WakeupStep::Done(0)
            } else if 1 > 0 && old(self).ring_view().flags % 2 == 1 {
                WakeupStep::Wakeup(1)
            } else {
                WakeupStep::Done(1)
            },
    {
        let cnt = self.produce_one(addr);
        self.wakeup_step(cnt)
    }

    /// The number of free slots on the ring, cached where possible.
    ///
    /// Answers from the cached consumer position while that cache holds
    /// at least `nb` slots, and reads the current position otherwise. A
    /// cached position only ever trails the real one, so the count is
    /// never an overestimate, and it is not capped at `nb`.
    ///
    /// See [`nb_free_exact`](Self::nb_free_exact) for a count that is
    /// always up to date.
    pub fn nb_free(&mut self, nb: u32) -> (n: u32)
        requires
            old(self).wf(),
        ensures
            n == if old(self).ring_view().cached_free() >= nb {
                old(self).ring_view().cached_free() as int
            } else {
                old(self).free()
            },
            n <= old(self).free(),
            n == if old(self).ring_view().cached_cons.wrapping_sub(
                old(self).ring_view().cached_prod,
            ) >= nb {
                old(self).ring_view().cached_cons.wrapping_sub(
                    old(self).ring_view().cached_prod,
                ) as int
            } else {
                old(self).ring_view().size - old(self).ring_view().producer.wrapping_sub(
                    old(self).ring_view().consumer,
                )
            },
            final(self).ring_view() == (XskRingProd {
                cached_cons: final(self).ring_view().cached_cons,
                ..old(self).ring_view()
            }),
            final(self).ring_view().cached_cons.wrapping_sub(old(self).ring_view().cached_prod)
                == n,
            final(self).wf(),
            final(self).ring_view() == old(self).ring_view().refreshed_for(nb),
            final(self).socket_view() == old(self).socket_view(),
    {
        self.ring.nb_free(nb)
    }

    /// The number of free slots on the ring.
    ///
    /// Reads the current consumer position rather than a cached one, so
    /// the count is exact. See [`nb_free`](Self::nb_free) for the
    /// cached count.
    pub fn nb_free_exact(&mut self) -> (n: u32)
        requires
            old(self).wf(),
        ensures
            n == old(self).free(),
            n == old(self).ring_view().size - old(self).ring_view().producer.wrapping_sub(
                old(self).ring_view().consumer,
            ),
            final(self).ring_view() == (XskRingProd {
                cached_cons: old(self).ring_view().consumer.wrapping_add(
                    old(self).ring_view().size,
                ),
                ..old(self).ring_view()
            }),
            final(self).wf(),
            final(self).ring_view() == old(self).ring_view().refreshed_for(
                old(self).ring_view().size,
            ),
            final(self).socket_view() == old(self).socket_view(),
    {
        ring::prod_nb_free_exact(&mut self.ring)
    }

    /// Wake up the kernel to let it know it can continue using the fill
    /// ring to process received data.
    ///
    /// `polled` is the outcome of polling the socket's file descriptor
    /// for reading, which is what wakes the kernel up. Whether there
    /// was anything to read makes no difference.
    pub fn wakeup<E>(&self, polled: Result<bool, E>) -> (r: Result<(), E>)
        ensures
            r == match polled {
                Ok(_) => Ok::<(), E>(()),
                Err(e) => Err::<(), E>(e),
            },
    {
        match polled {
            Ok(_) => Ok(()),
            Err(e) => Err(e),
        }
    }

    /// Check if the need-wakeup flag is set on the fill ring. If so then
    /// this means a call to [`wakeup`](Self::wakeup) will be required to
    /// continue processing received data.
    pub fn needs_wakeup(&self) -> (r: bool)
        ensures
            r == (self.ring_view().flags % 2 == 1),
    {
        self.ring.needs_wakeup()
    }

    /// The queue's ring.
    pub fn ring(&self) -> (r: &XskRingProd<u64>)
        ensures
            *r == self.ring_view(),
    {
        &self.ring
    }

    /// The kernel has taken `nb` frames off the ring.
    pub fn kernel_consume(&mut self, nb: u32)
        requires
            old(self).wf(),
            nb <= old(self).pending().len(),
        ensures
            final(self).wf(),
            final(self).pending() == old(self).pending().skip(nb as int),
            final(self).free() == old(self).free() + nb,
            final(self).ring_view() == (XskRingProd {
                consumer: old(self).ring_view().consumer.wrapping_add(nb),
                ..old(self).ring_view()
            }),
            final(self).socket_view() == old(self).socket_view(),
    {
        self.ring.kernel_consume(nb);
    }

    /// The kernel has set the ring's flags to `flags`.
    pub fn kernel_set_flags(&mut self, flags: u32)
        ensures
            final(self).ring_view() == (XskRingProd { flags, ..old(self).ring_view() }),
            final(self).socket_view() == old(self).socket_view(),
            final(self).wf() == old(self).wf(),
            final(self).pending() == old(self).pending(),
    {
        self.ring.flags = flags;
    }
}

/// Copies a batch of frame addresses into the fill ring while handling
/// wrap-around once. At most two contiguous destination ranges are
/// needed.
pub fn copy_fill_addrs(ring: &mut XskRingProd<u64>, idx: u32, src: &[u64])
    requires
        old(ring).laid_out(),
        src@.len() <= old(ring).size,
    ensures
        final(ring).ring@ == slots::written(old(ring).ring@, idx, src@),
        final(ring).ring@.len() == old(ring).ring@.len(),
        forall|i: int|
            0 <= i < src@.len() ==> final(ring).ring@[(idx + i) % old(ring).size as int]
                == #[trigger] src@[i],
        forall|s: int|
            0 <= s < old(ring).size && (s - idx) % old(ring).size as int >= src@.len()
                ==> #[trigger] final(ring).ring@[s] == old(ring).ring@[s],
        *final(ring) == (XskRingProd { ring: final(ring).ring, ..*old(ring) }),
{
    proof {
        slots::mask_gives_slot(ring.size, idx);
    }
    let start: usize = (idx & ring.mask) as usize;
    let room: usize = ring.size as usize - start;
    let first_count: usize = if room < src.len() {
        room
    } else {
        src.len()
    };
    let second_count: usize = src.len() - first_count;
    let (first, second) = src.split_at(first_count);
    copy_addr_range(&mut ring.ring, start, first);
    if second_count > 0 {
        copy_addr_range(&mut ring.ring, 0, second);
    }
    proof {
        assert forall|s: int| 0 <= s < ring.size implies ring.ring@[s] == slots::written(
            old(ring).ring@,
            idx,
            src@,
        )[s] by {
            slots::slots_past_in_order(ring.size, idx, s);
        }
        assert(ring.ring@ =~= slots::written(old(ring).ring@, idx, src@));
        slots::entries_are_written_round_the_ring(old(ring).ring@, idx, src@);
    }
}

/// Copies `src` into the slots from `start` on.
fn copy_addr_range(ring_addrs: &mut Vec<u64>, start: usize, src: &[u64])
    requires
        start + src@.len() <= old(ring_addrs)@.len(),
    ensures
        final(ring_addrs)@.len() == old(ring_addrs)@.len(),
        forall|s: int|
            0 <= s < old(ring_addrs)@.len() ==> #[trigger] final(ring_addrs)@[s] == if start <= s
                < start + src@.len() {
                src@[s - start]
            } else {
                old(ring_addrs)@[s]
            },
{
    let count = src.len();
    let nb_slots = ring_addrs.len();
    let mut i: usize = 0;
    while i < count
        invariant
            i <= count,
            count == src@.len(),
            start + count <= nb_slots,
            nb_slots == ring_addrs@.len(),
            nb_slots == old(ring_addrs)@.len(),
            forall|s: int|
                0 <= s < ring_addrs@.len() ==> #[trigger] ring_addrs@[s] == if start <= s < start + i {
                    src@[s - start]
                } else {
                    old(ring_addrs)@[s]
                },
        decreases count - i,
    {
        ring_addrs[start + i] = src[i];
        i += 1;
    }
}

/// Handing the same addresses over has one outcome: it does not matter
/// whether a single address goes through [`FillQueue::produce`] or
/// [`FillQueue::produce_one`].
pub proof fn producing_has_one_outcome(
    queue: FillQueue,
    addrs: Seq<u64>,
    one: FillQueue,
    other: FillQueue,
)
    requires
        queue.produced(addrs, one),
        queue.produced(addrs, other),
    ensures
        one.ring_view().ring@ == other.ring_view().ring@,
        one.ring_view() == (XskRingProd { ring: one.ring_view().ring, ..other.ring_view() }),
        one.socket_view() == other.socket_view(),
{
}

/// A batch is handed over whole or not at all, and batches that are
/// handed over one after the other are pending in that order, behind
/// what was pending before.
pub proof fn batches_are_pending_in_order(
    queue: FillQueue,
    first: Seq<u64>,
    middle: FillQueue,
    second: Seq<u64>,
    after: FillQueue,
)
    requires
        queue.wf(),
        queue.produced(first, middle),
        middle.produced(second, after),
    ensures
        first.len() + second.len() <= queue.free() ==> {
            &&& after.pending() == queue.pending() + (first + second)
            &&& after.free() == queue.free() - first.len() - second.len()
        },
        first.len() > queue.free() ==> {
            &&& middle.pending() == queue.pending()
            &&& middle.free() == queue.free()
        },
        after.free() + after.pending().len() == queue.free() + queue.pending().len(),
{
    assert(queue.pending() + first + second =~= queue.pending() + (first + second));
}

/// What the kernel takes off the ring is what was handed over, in the
/// order it was handed over: once it has taken `nb` of the addresses
/// `addrs` handed over to an empty queue, the others are pending and as
/// many slots are free again. `before` is the queue the kernel takes
/// them from, and `after` the queue that [`FillQueue::kernel_consume`]
/// leaves.
pub proof fn kernel_takes_what_was_produced(
    queue: FillQueue,
    addrs: Seq<u64>,
    before: FillQueue,
    nb: u32,
    after: FillQueue,
)
    requires
        queue.wf(),
        queue.pending().len() == 0,
        addrs.len() <= queue.free(),
        queue.produced(addrs, before),
        nb <= addrs.len(),
        after.pending() == before.pending().skip(nb as int),
        after.free() == before.free() + nb,
    ensures
        before.pending() == addrs,
        before.pending().take(nb as int) == addrs.take(nb as int),
        after.pending() == addrs.skip(nb as int),
        after.free() == queue.free() - addrs.len() + nb,
{
    assert(queue.pending() + addrs =~= addrs);
}

/// What a fill queue's positions say of it: `producer - consumer`
/// addresses wait for the kernel, the oldest of them in slot
/// `consumer % size` and each further one in the next, and the other
/// slots are free.
pub proof fn positions_of_a_fill_queue(queue: FillQueue)
    ensures
        queue.wf() <==> queue.ring_view().wf() && queue.ring_view().cached_prod
            == queue.ring_view().producer,
        queue.wf() ==> {
            let ring = queue.ring_view();
            &&& queue.pending().len() == ring.producer.wrapping_sub(ring.consumer)
            &&& forall|i: int|
                0 <= i < queue.pending().len() ==> #[trigger] queue.pending()[i] == ring.ring@[(
                ring.consumer + i) % ring.size as int]
            &&& queue.free() == ring.size - ring.producer.wrapping_sub(ring.consumer)
        },
{
    if queue.wf() {
        ring::positions_of_a_producer_ring(queue.ring_view());
    }
}

/// Handing addresses over moves the producer position by how many there
/// are if they all fit, and not at all otherwise. Neither the kernel's
/// position nor anything else that is the kernel's changes.
pub proof fn producing_moves_the_producer_by_what_fits(
    queue: FillQueue,
    addrs: Seq<u64>,
    after: FillQueue,
)
    requires
        queue.wf(),
        queue.produced(addrs, after),
    ensures
        ({
            let ring = queue.ring_view();
            let new = after.ring_view();
            let fits = addrs.len() <= ring.size - ring.producer.wrapping_sub(ring.consumer);
            &&& new.producer.wrapping_sub(ring.producer) == if fits {
                addrs.len()
            } else {
                0
            }
            &&& new.cached_prod == new.producer
            &&& new.consumer == ring.consumer
            &&& new.size == ring.size
            &&& new.mask == ring.mask
            &&& new.flags == ring.flags
            &&& new.ring@.len() == ring.ring@.len()
            &&& !fits ==> new.ring@ == ring.ring@
            &&& after.pending().len() == queue.pending().len() + new.producer.wrapping_sub(
                ring.producer,
            )
            &&& fits ==> forall|i: int|
                0 <= i < addrs.len() ==> #[trigger] after.pending()[queue.pending().len() + i]
                    == addrs[i]
            &&& forall|i: int|
                0 <= i < queue.pending().len() ==> #[trigger] after.pending()[i]
                    == queue.pending()[i]
        }),
{
}

/// Handing addresses over lowers the count that [`FillQueue::nb_free`]
/// answers from by how many there were and no more, if the count
/// accounted for as many. If it fell short, it is brought up to date. So
/// the cached position never moves back.
pub proof fn producing_lowers_the_cached_count_by_what_was_produced(
    queue: FillQueue,
    addrs: Seq<u64>,
    after: FillQueue,
)
    requires
        queue.wf(),
        queue.produced(addrs, after),
    ensures
        ({
            let ring = queue.ring_view();
            let new = after.ring_view();
            let cached = ring.cached_cons.wrapping_sub(ring.cached_prod);
            let cached_after = new.cached_cons.wrapping_sub(new.cached_prod);
            let produced = new.producer.wrapping_sub(ring.producer);
            &&& addrs.len() <= cached ==> {
                &&& produced == addrs.len()
                &&& cached_after == cached - addrs.len()
                &&& new.cached_cons == ring.cached_cons
            }
            &&& addrs.len() > cached ==> cached_after == ring.size - new.producer.wrapping_sub(
                ring.consumer,
            )
            &&& cached_after + produced >= cached
            &&& new.cached_cons.wrapping_sub(ring.cached_cons) <= ring.size
        }),
{
}

/// The kernel has to be woken up exactly if frames were produced and it
/// asks for that with the lowest bit of the flags, and either way the
/// step holds how many were.
pub proof fn wakeup_follows_frames_and_flag(cnt: usize, flags: u32)
    ensures
        WakeupStep::after(cnt, flags) == WakeupStep::Wakeup(cnt) <==> cnt > 0 && flags % 2 == 1,
        WakeupStep::after(cnt, flags) == WakeupStep::Done(cnt) <==> cnt == 0 || flags % 2 == 0,
        WakeupStep::after(cnt, flags) is Wakeup ==> WakeupStep::after(cnt, flags)->Wakeup_0 == cnt,
        WakeupStep::after(cnt, flags) is Done ==> WakeupStep::after(cnt, flags)->Done_0 == cnt,
{
}

} // verus!
