//! The queue that hands over received packets.

use super::{Fd, Socket};
use crate::ring::{self, XskRingCons};
use crate::slots;
use crate::umem::frame::{FrameDesc, XdpDesc};
use vstd::prelude::*;
use vstd::slice::slice_subrange;

verus! {

/// The receiving side of an AF_XDP [`Socket`].
#[derive(Debug)]
pub struct RxQueue {
    ring: XskRingCons<XdpDesc>,
    socket: Socket,
}

impl RxQueue {
    /// The queue's ring.
    pub closed spec fn ring_view(self) -> XskRingCons<XdpDesc> {
        self.ring
    }

    /// The queue's socket.
    pub closed spec fn socket_view(self) -> Socket {
        self.socket
    }

    /// The queue's ring is well-formed, and between calls nothing is
    /// peeked at on it that has not been released.
    pub open spec fn wf(self) -> bool {
        &&& self.ring_view().wf()
        &&& self.ring_view().settled()
    }

    /// The descriptors ready to be consumed, oldest first.
    pub open spec fn pending(self) -> Seq<XdpDesc> {
        self.ring_view().pending()
    }

    /// How the queue is left by consuming up to `nb` descriptors into
    /// `descs`, and how it leaves those, `cnt` of them updated.
    pub open spec fn consumed(
        self,
        nb: u32,
        descs: Seq<FrameDesc>,
        cnt: usize,
        after: Self,
        descs_after: Seq<FrameDesc>,
    ) -> bool {
        &&& cnt == if nb == 0 {
            0
        } else {
            self.ring_view().nb_within(nb)
        }
        &&& cnt <= descs.len()
        &&& cnt <= self.pending().len()
        &&& descs_after.len() == descs.len()
        &&& forall|i: int|
            0 <= i < cnt ==> (#[trigger] descs_after[i])@ == self.pending()[i]
        &&& forall|i: int| cnt <= i < descs.len() ==> #[trigger] descs_after[i] == descs[i]
        &&& after.pending() =~= self.pending().skip(cnt as int)
        &&& after.ring_view() == if nb == 0 {
            self.ring_view()
        } else {
            self.ring_view().consumed_for(nb)
        }
        &&& after.wf()
        &&& after.socket_view() == self.socket_view()
    }

    /// A queue on `ring`, which belongs to `socket`.
    pub fn new(ring: XskRingCons<XdpDesc>, socket: Socket) -> (r: Self)
        requires
            ring.wf(),
            ring.settled(),
        ensures
            r.wf(),
            r.ring_view() == ring,
            r.socket_view() == socket,
    {
        RxQueue { ring, socket }
    }

    /// Update `descs` with information on which UMEM frames have
    /// received packets. Returns the number of elements of `descs`
    /// which have been updated.
    ///
    /// The number of entries updated will be less than or equal to the
    /// length of `descs`. Entries will be updated sequentially from the
    /// start of `descs` until the end.
    ///
    /// Once the contents of the consumed frames have been dealt with
    /// and are no longer required, the frames should eventually be
    /// added back on to the [`FillQueue`](crate::FillQueue).
    ///
    /// Positions on the ring are 32 bits wide, and so is the number of
    /// entries asked for: it is the length of `descs` modulo 2^32.
    #[verifier::rlimit(40)]
    pub fn consume(&mut self, descs: &mut [FrameDesc]) -> (cnt: usize)
        requires
            old(self).wf(),
        ensures
            old(self).consumed(
                (old(descs)@.len() % 0x1_0000_0000) as u32,
                old(descs)@,
                cnt,
                *final(self),
                final(descs)@,
            ),
            // How many, by what is pending and by the ring's positions.
            ({
                let nb = old(descs)@.len() % 0x1_0000_0000;
                &&& cnt == 0 ==> nb == 0 || old(self).pending().len() == 0
                &&& old(self).ring_view().cached_prod == old(self).ring_view().producer || old(self).ring_view().cached_prod == old(self).ring_view().consumer ==> cnt == if nb
                    < old(self).pending().len() {
                    nb as int
                } else {
                    old(self).pending().len() as int
                }
                &&& old(self).ring_view().cached_prod != old(self).ring_view().consumer ==> cnt == if nb < old(self).ring_view().cached_prod.wrapping_sub(
                    old(self).ring_view().consumer,
                ) {
                    nb as int
                } else {
                    old(self).ring_view().cached_prod.wrapping_sub(old(self).ring_view().consumer) as int
                }
                &&& final(self).ring_view() == (XskRingCons {
                    consumer: old(self).ring_view().consumer.wrapping_add(cnt as u32),
                    cached_cons: old(self).ring_view().cached_cons.wrapping_add(cnt as u32),
                    cached_prod: if nb > 0 && old(self).ring_view().cached_prod == old(self).ring_view().cached_cons {
                        old(self).ring_view().producer
                    } else {
                        old(self).ring_view().cached_prod
                    },
                    ..old(self).ring_view()
                })
            }),
            // The oldest entries lie in the slots from the consumer
            // position on. They come first, and nothing after them has
            // changed.
            final(descs)@.len() == old(descs)@.len(),
            forall|i: int|
                0 <= i < cnt ==> (#[trigger] final(descs)@[i])@ == old(self).ring_view().ring@[(
                old(self).ring_view().consumer + i) % old(self).ring_view().size as int],
            forall|i: int|
                cnt <= i < old(descs)@.len() ==> #[trigger] final(descs)@[i] == old(descs)@[i],
    {
        let nb: u32 = ring::batch_size(descs.len());
        if nb == 0 {
            return 0;
        }
        proof {
            ring::positions_of_a_consumer_ring(self.ring);
        }
        let mut idx: u32 = 0;
        let cnt = self.ring.peek(nb, &mut idx);
        if cnt > 0 {
            let (dst, _) = descs.split_at_mut(cnt as usize);
            copy_rx_descs(&self.ring, idx, dst);
            self.ring.release(cnt);
        }
        cnt as usize
    }

    /// Same as [`consume`](Self::consume) but for a single frame
    /// descriptor.
    #[verifier::rlimit(40)]
    pub fn consume_one(&mut self, desc: &mut FrameDesc) -> (cnt: usize)
        requires
            old(self).wf(),
        ensures
            cnt == if old(self).pending().len() > 0 {
                1
            } else {
                0int
            },
            old(self).consumed(1, seq![*old(desc)], cnt, *final(self), seq![*final(desc)]),
            // One if there is one, by the ring's positions: the entry in
            // the slot of the consumer position.
            cnt == if old(self).ring_view().producer != old(self).ring_view().consumer {
                1int
            } else {
                0
            },
            cnt > 0 ==> final(desc)@ == old(self).ring_view().ring@[old(self).ring_view().consumer as int % old(self).ring_view().size as int],
            cnt == 0 ==> *final(desc) == *old(desc),
            final(self).ring_view() == (XskRingCons {
                    consumer: old(self).ring_view().consumer.wrapping_add(cnt as u32),
                    cached_cons: old(self).ring_view().cached_cons.wrapping_add(cnt as u32),
                    cached_prod: if 1 > 0 && old(self).ring_view().cached_prod == old(self).ring_view().cached_cons {
                        old(self).ring_view().producer
                    } else {
                        old(self).ring_view().cached_prod
                    },
                    ..old(self).ring_view()
                }),
    {
        proof {
            ring::positions_of_a_consumer_ring(self.ring);
        }
        let mut idx: u32 = 0;
        let cnt = self.ring.peek(1, &mut idx);
        if cnt > 0 {
            let recv_pkt_desc = self.ring.entry(idx);
            *desc = FrameDesc::read_xdp_desc(&recv_pkt_desc);
            self.ring.release(cnt);
        }
        cnt as usize
    }

    /// Same as [`consume`](Self::consume) but poll first to check if
    /// there is anything to read beforehand.
    ///
    /// `polled` is the outcome of polling the socket's file descriptor:
    /// whether there is anything to read, or the error that polling
    /// ended in.
    pub fn poll_and_consume<E>(
        &mut self,
        descs: &mut [FrameDesc],
        polled: Result<bool, E>,
    ) -> (r: Result<usize, E>)
        requires
            old(self).wf(),
        ensures
            match polled {
                Ok(true) => {
                    &&& r is Ok
                    &&& old(self).consumed(
                        (old(descs)@.len() % 0x1_0000_0000) as u32,
                        old(descs)@,
                        r->Ok_0,
                        *final(self),
                        final(descs)@,
                    )
                    &&& r->Ok_0 == 0 <==> old(descs)@.len() % 0x1_0000_0000 == 0 || old(
                        self,
                    ).pending().len() == 0
                    &&& final(self).pending().len() == old(self).pending().len() - r->Ok_0
                },
                Ok(false) => {
                    &&& r == Ok::<usize, E>(0)
                    &&& *final(self) == *old(self)
                    &&& final(descs)@ == old(descs)@
                },
                Err(e) => {
                    &&& r == Err::<usize, E>(e)
                    &&& *final(self) == *old(self)
                    &&& final(descs)@ == old(descs)@
                },
            },
    {
        match polled {
            Ok(true) => Ok(self.consume(descs)),
            Ok(false) => Ok(0),
            Err(e) => Err(e),
        }
    }

    /// Same as [`poll_and_consume`](Self::poll_and_consume) but for a
    /// single frame descriptor.
    pub fn poll_and_consume_one<E>(
        &mut self,
        desc: &mut FrameDesc,
        polled: Result<bool, E>,
    ) -> (r: Result<usize, E>)
        requires
            old(self).wf(),
        ensures
            match polled {
                Ok(true) => {
                    &&& r == Ok::<usize, E>(
                        if old(self).pending().len() > 0 {
                            1
                        } else {
                            0
                        },
                    )
                    &&& old(self).consumed(
                        1,
                        seq![*old(desc)],
                        r->Ok_0,
                        *final(self),
                        seq![*final(desc)],
                    )
                },
                Ok(false) => {
                    &&& r == Ok::<usize, E>(0)
                    &&& *final(self) == *old(self)
                    &&& *final(desc) == *old(desc)
                },
                Err(e) => {
                    &&& r == Err::<usize, E>(e)
                    &&& *final(self) == *old(self)
                    &&& *final(desc) == *old(desc)
                },
            },
    {
        match polled {
            Ok(true) => Ok(self.consume_one(desc)),
            Ok(false) => Ok(0),
            Err(e) => Err(e),
        }
    }

    /// The number of entries ready to be consumed, up to `nb`.
    ///
    /// Answers from the cached producer position unless that cache is
    /// empty, in which case the current position is read. A cached
    /// position only ever trails the real one, so the count is never an
    /// overestimate.
    ///
    /// Note that passing the ring size does not give an exact count,
    /// since a non-empty cache is never refreshed. See
    /// [`nb_avail_exact`](Self::nb_avail_exact) for that.
    pub fn nb_avail(&mut self, nb: u32) -> (n: u32)
        requires
            old(self).wf(),
        ensures
            n == old(self).ring_view().nb_within(nb),
            // What the cache accounts for, or what there is if that is
            // nothing, up to `nb`.
            ({
                let known = if old(self).ring_view().cached_prod != old(self).ring_view().consumer {
                    old(self).ring_view().cached_prod.wrapping_sub(old(self).ring_view().consumer)
                } else {
                    old(self).ring_view().producer.wrapping_sub(old(self).ring_view().consumer)
                };
                n == if nb < known {
                    nb
                } else {
                    known
                }
            }),
            final(self).ring_view() == (XskRingCons {
                cached_prod: if old(self).ring_view().cached_prod != old(self).ring_view().consumer {
                    old(self).ring_view().cached_prod
                } else {
                    old(self).ring_view().producer
                },
                ..old(self).ring_view()
            }),
            n <= old(self).pending().len(),
            n <= nb,
            final(self).pending() == old(self).pending(),
            final(self).ring_view() == old(self).ring_view().refreshed(),
            final(self).wf(),
            final(self).socket_view() == old(self).socket_view(),
    {
        self.ring.nb_avail(nb)
    }

    /// The number of entries ready to be consumed.
    ///
    /// Reads the current producer position rather than a cached one, so
    /// this can be used to watch a backlog without consuming it. See
    /// [`nb_avail`](Self::nb_avail) for the cached count.
    pub fn nb_avail_exact(&mut self) -> (n: u32)
        requires
            old(self).wf(),
        ensures
            n == old(self).pending().len(),
            n == old(self).ring_view().producer.wrapping_sub(old(self).ring_view().consumer),
            final(self).pending() == old(self).pending(),
            final(self).ring_view() == (XskRingCons {
                cached_prod: old(self).ring_view().producer,
                ..old(self).ring_view()
            }),
            final(self).wf(),
            final(self).socket_view() == old(self).socket_view(),
    {
        ring::cons_nb_avail_exact(&mut self.ring)
    }

    /// A reference to the underlying [`Socket`]'s file descriptor.
    pub fn fd(&self) -> (r: &Fd)
        ensures
            *r == self.socket_view().fd,
    {
        &self.socket.fd
    }

    /// A mutable reference to the underlying [`Socket`]'s file
    /// descriptor.
    pub fn fd_mut(&mut self) -> (r: &mut Fd)
        ensures
            *r == old(self).socket_view().fd,
            final(self).socket_view().fd == *final(r),
            final(self).ring_view() == old(self).ring_view(),
    {
        &mut self.socket.fd
    }

    /// The queue's ring.
    pub fn ring(&self) -> (r: &XskRingCons<XdpDesc>)
        ensures
            *r == self.ring_view(),
    {
        &self.ring
    }

    /// The kernel has received packets, and has put `descs` on the
    /// ring.
    pub fn kernel_produce(&mut self, descs: &[XdpDesc])
        requires
            old(self).wf(),
            old(self).pending().len() + descs@.len() <= old(self).ring_view().size,
        ensures
            final(self).wf(),
            final(self).pending() == old(self).pending() + descs@,
            final(self).ring_view().ring@ == slots::written(
                old(self).ring_view().ring@,
                old(self).ring_view().producer,
                descs@,
            ),
            final(self).ring_view() == (XskRingCons {
                producer: old(self).ring_view().producer.wrapping_add(descs@.len() as u32),
                ring: final(self).ring_view().ring,
                ..old(self).ring_view()
            }),
            final(self).socket_view() == old(self).socket_view(),
    {
        self.ring.kernel_produce(descs);
    }
}

/// Copies a batch of RX descriptors while handling the ring wrap-around
/// once.
///
/// The ring is power-of-two sized, so `mask` maps the absolute consumer
/// index to the first entry. At most two contiguous ranges are needed
/// for a batch.
pub fn copy_rx_descs(ring: &XskRingCons<XdpDesc>, idx: u32, dst: &mut [FrameDesc])
    requires
        ring.laid_out(),
        old(dst)@.len() <= ring.size,
    ensures
        final(dst)@.len() == old(dst)@.len(),
        forall|i: int|
            0 <= i < final(dst)@.len() ==> {
                &&& (#[trigger] final(dst)@[i])@ == slots::entries_from(
                    ring.ring@,
                    idx,
                    old(dst)@.len() as int,
                )[i]
                &&& final(dst)@[i]@ == ring.ring@[(idx + i) % ring.size as int]
            },
{
    proof {
        slots::entries_lie_round_the_ring(ring.ring@, idx, dst@.len() as int);
        slots::mask_gives_slot(ring.size, idx);
        slots::entries_in_two_ranges(ring.ring@, idx, dst@.len() as int);
    }
    let start: usize = (idx & ring.mask) as usize;
    let room: usize = ring.size as usize - start;
    let first_count: usize = if room < dst.len() {
        room
    } else {
        dst.len()
    };
    let second_count: usize = dst.len() - first_count;
    let ring_descs = ring.ring.as_slice();
    let (first, second) = dst.split_at_mut(first_count);
    FrameDesc::read_xdp_desc_slice(
        slice_subrange(ring_descs, start, start + first_count),
        first,
    );
    if second_count > 0 {
        FrameDesc::read_xdp_desc_slice(slice_subrange(ring_descs, 0, second_count), second);
    }
}

/// Consuming into the same descriptors has one outcome: it does not
/// matter whether a single descriptor goes through [`RxQueue::consume`]
/// or [`RxQueue::consume_one`].
pub proof fn consuming_has_one_outcome(
    queue: RxQueue,
    nb: u32,
    descs: Seq<FrameDesc>,
    one: (usize, RxQueue, Seq<FrameDesc>),
    other: (usize, RxQueue, Seq<FrameDesc>),
)
    requires
        queue.consumed(nb, descs, one.0, one.1, one.2),
        queue.consumed(nb, descs, other.0, other.1, other.2),
    ensures
        one == other,
{
    assert forall|i: int| 0 <= i < descs.len() implies one.2[i] == other.2[i] by {
        if i < one.0 {
            crate::umem::frame::desc_written_is_desc_read(
                other.2[i],
                queue.pending()[i],
                one.2[i],
            );
        }
    }
    assert(one.2 =~= other.2);
}

/// What a receive queue's positions say of it: `producer - consumer` entries
/// are there to be consumed, the oldest of them in slot
/// `consumer % size` and each further one in the next.
pub proof fn positions_of_a_receive_queue(queue: RxQueue)
    ensures
        queue.wf() <==> queue.ring_view().wf() && queue.ring_view().cached_cons
            == queue.ring_view().consumer,
        queue.wf() ==> {
            let ring = queue.ring_view();
            &&& queue.pending().len() == ring.producer.wrapping_sub(ring.consumer)
            &&& forall|i: int|
                0 <= i < queue.pending().len() ==> #[trigger] queue.pending()[i] == ring.ring@[(
                ring.consumer + i) % ring.size as int]
        },
{
    if queue.wf() {
        ring::positions_of_a_consumer_ring(queue.ring_view());
    }
}

/// Consuming yields as many entries as were asked for or as there are,
/// whichever is fewer, if the cached producer position is up to date or
/// accounts for nothing. Otherwise it yields as many as that accounts
/// for, up to what was asked for. It yields none only if none were asked
/// for or there are none.
pub proof fn consuming_yields_what_there_is(
    queue: RxQueue,
    nb: u32,
    buf: Seq<FrameDesc>,
    cnt: usize,
    after: RxQueue,
    buf_after: Seq<FrameDesc>,
)
    requires
        queue.wf(),
        queue.consumed(nb, buf, cnt, after, buf_after),
    ensures
        ({
            let ring = queue.ring_view();
            let pending = queue.pending().len();
            let known = ring.cached_prod.wrapping_sub(ring.consumer);
            &&& cnt == 0 <==> nb == 0 || pending == 0
            &&& known == 0 || ring.cached_prod == ring.producer ==> cnt == if nb < pending {
                nb as int
            } else {
                pending as int
            }
            &&& known > 0 ==> cnt == if nb < known {
                nb
            } else {
                known
            }
        }),
{
}

/// What consuming yields comes off the ring: the entries, oldest first,
/// are at the start of the buffer and no longer pending, the rest of
/// both is as it was, and the kernel has got as many slots back.
pub proof fn what_is_consumed_comes_off_the_ring(
    queue: RxQueue,
    nb: u32,
    buf: Seq<FrameDesc>,
    cnt: usize,
    after: RxQueue,
    buf_after: Seq<FrameDesc>,
)
    requires
        queue.wf(),
        queue.consumed(nb, buf, cnt, after, buf_after),
    ensures
        buf_after.len() == buf.len(),
        forall|i: int| 0 <= i < cnt ==> (#[trigger] buf_after[i])@ == queue.pending()[i],
        forall|i: int| cnt <= i < buf.len() ==> #[trigger] buf_after[i] == buf[i],
        after.pending().len() == queue.pending().len() - cnt,
        forall|i: int|
            0 <= i < after.pending().len() ==> #[trigger] after.pending()[i]
                == queue.pending()[cnt + i],
        after.ring_view().consumer.wrapping_sub(queue.ring_view().consumer) == cnt,
        after.ring_view().cached_cons == after.ring_view().consumer,
        after.ring_view().producer == queue.ring_view().producer,
        after.ring_view().ring == queue.ring_view().ring,
        after.ring_view().size == queue.ring_view().size,
        after.ring_view().mask == queue.ring_view().mask,
        after.ring_view().flags == queue.ring_view().flags,
        after.ring_view().cached_prod == if nb > 0 && queue.ring_view().cached_prod
            == queue.ring_view().consumer {
            queue.ring_view().producer
        } else {
            queue.ring_view().cached_prod
        },
{
}

} // verus!
