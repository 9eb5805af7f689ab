//! The producer and consumer rings shared with the kernel.
//!
//! A ring is a power of two of slots and two free-running positions,
//! one advanced by each side. Each side keeps cached copies of the
//! positions, so that it does not have to read the other side's on
//! every call. The cached copy of the other side's position only ever
//! trails the real one.
//!
//! The operations are those of libxdp's `xsk_ring_prod` and
//! `xsk_ring_cons`, and so are the fields, with the shared positions,
//! the slots and the flags held by value where libxdp points at mapped
//! memory.
//!
//! What the kernel does to a ring is an event: [`kernel_consume`] on a
//! producer ring, [`kernel_produce`] on a consumer ring. Whatever owns
//! the mapped memory reports those, and carries positions and entries
//! the other way.
//!
//! [`kernel_consume`]: XskRingProd::kernel_consume
//! [`kernel_produce`]: XskRingCons::kernel_produce

use crate::slots;
use vstd::prelude::*;

verus! {

/// Set in a ring's flags while the kernel has to be woken up before it
/// goes on processing the ring.
pub const XDP_RING_NEED_WAKEUP: u32 = 1;

/// A producer ring: entries are written by user space and taken by the
/// kernel.
#[derive(Debug)]
pub struct XskRingProd<T> {
    /// The position after the last entry reserved.
    pub cached_prod: u32,
    /// The kernel's position as last read, plus the size of the ring.
    pub cached_cons: u32,
    /// The size of the ring less one.
    pub mask: u32,
    /// The number of slots.
    pub size: u32,
    /// The position after the last entry submitted.
    pub producer: u32,
    /// The position after the last entry taken by the kernel.
    pub consumer: u32,
    /// The slots, or nothing if no memory has been mapped.
    pub ring: Vec<T>,
    /// Flags set by the kernel.
    pub flags: u32,
}

impl<T> XskRingProd<T> {
    /// The ring has memory, a power of two of slots of it, and the
    /// mask that goes with them.
    pub open spec fn laid_out(self) -> bool {
        &&& slots::is_ring_size(self.size)
        &&& self.mask == self.size - 1
        &&& self.ring@.len() == self.size
    }

    /// Entries taken by the kernel since its position was last read.
    pub open spec fn nb_taken(self) -> u32 {
        self.consumer.wrapping_sub(self.cached_cons.wrapping_sub(self.size))
    }

    /// Entries submitted and not yet taken by the kernel.
    pub open spec fn nb_pending(self) -> u32 {
        self.producer.wrapping_sub(self.consumer)
    }

    /// Entries reserved and not yet submitted.
    pub open spec fn nb_reserved(self) -> u32 {
        self.cached_prod.wrapping_sub(self.producer)
    }

    /// The ring is laid out and its positions are in order: the cached
    /// consumer, the consumer, the producer and the cached producer
    /// follow one another within the size of the ring.
    pub open spec fn wf(self) -> bool {
        &&& self.laid_out()
        &&& self.nb_taken() + self.nb_pending() + self.nb_reserved() <= self.size
    }

    /// Nothing is reserved that has not been submitted.
    pub open spec fn settled(self) -> bool {
        self.cached_prod == self.producer
    }

    /// The entries submitted and not yet taken by the kernel, oldest
    /// first.
    pub open spec fn pending(self) -> Seq<T> {
        slots::entries_from(self.ring@, self.consumer, self.nb_pending() as int)
    }

    /// The number of free slots.
    pub open spec fn free(self) -> int {
        self.size - self.nb_pending() - self.nb_reserved()
    }

    /// The number of free slots, going by the cached consumer position.
    pub open spec fn cached_free(self) -> u32 {
        self.cached_cons.wrapping_sub(self.cached_prod)
    }

    /// The ring once the kernel's position has been read, if fewer
    /// than `nb` slots are free going by the cached one.
    pub open spec fn refreshed_for(self, nb: u32) -> Self {
        if self.cached_free() >= nb {
            self
        } else {
            XskRingProd { cached_cons: self.consumer.wrapping_add(self.size), ..self }
        }
    }

    /// The ring once `nb` slots have been reserved, if there are as
    /// many.
    pub open spec fn reserved_for(self, nb: u32) -> Self {
        let ring = self.refreshed_for(nb);
        if ring.cached_free() < nb {
            ring
        } else {
            XskRingProd { cached_prod: ring.cached_prod.wrapping_add(nb), ..ring }
        }
    }

    /// A ring nothing has been put on yet, with `ring` as its memory.
    pub fn new(ring: Vec<T>) -> (r: Self)
        requires
            ring@.len() <= u32::MAX,
            slots::is_ring_size(ring@.len() as u32),
        ensures
            r.wf(),
            r.settled(),
            r.ring == ring,
            r.size == ring@.len(),
            r.mask == r.size - 1,
            r.cached_prod == 0,
            r.producer == 0,
            r.consumer == 0,
            r.cached_cons == r.size,
            r.flags == 0,
            r.free() == r.size,
            r.pending() == Seq::<T>::empty(),
    {
        proof {
            slots::mask_gives_slot(ring@.len() as u32, 0);
        }
        let size: u32 = ring.len() as u32;
        XskRingProd {
            cached_prod: 0,
            cached_cons: size,
            mask: size - 1,
            size,
            producer: 0,
            consumer: 0,
            ring,
            flags: 0,
        }
    }

    /// Whether the ring is laid out and its positions are in order.
    pub fn is_consistent(&self) -> (r: bool)
        ensures
            r == self.wf(),
            r == {
                &&& self.size != 0 && self.size & (self.size - 1) as u32 == 0
                &&& self.mask == self.size - 1
                &&& self.ring@.len() == self.size
                &&& self.consumer.wrapping_sub(self.cached_cons.wrapping_sub(self.size))
                    + self.producer.wrapping_sub(self.consumer) + self.cached_prod.wrapping_sub(
                    self.producer,
                ) <= self.size
            },
    {
        proof {
            slots::ring_size_has_one_bit(self.size);
        }
        if self.size == 0 || self.size & (self.size - 1) != 0 {
            return false;
        }
        if self.mask != self.size - 1 || self.ring.len() != self.size as usize {
            return false;
        }
        let taken = self.consumer.wrapping_sub(self.cached_cons.wrapping_sub(self.size));
        let pending = self.producer.wrapping_sub(self.consumer);
        let reserved = self.cached_prod.wrapping_sub(self.producer);
        taken as u64 + pending as u64 + reserved as u64 <= self.size as u64
    }

    /// Whether the ring has no memory.
    pub fn is_ring_null(&self) -> (r: bool)
        ensures
            r == (self.ring@.len() == 0),
    {
        self.ring.len() == 0
    }

    /// The number of free slots, cached where possible.
    ///
    /// Answers from the cached consumer position while that leaves at
    /// least `nb` slots, and reads the kernel's otherwise
    /// (`xsk_prod_nb_free`).
    pub fn nb_free(&mut self, nb: u32) -> (n: u32)
        ensures
            *final(self) == old(self).refreshed_for(nb),
            n == final(self).cached_free(),
            old(self).cached_cons.wrapping_sub(old(self).cached_prod) >= nb ==> {
                &&& n == old(self).cached_cons.wrapping_sub(old(self).cached_prod)
                &&& *final(self) == *old(self)
            },
            old(self).cached_cons.wrapping_sub(old(self).cached_prod) < nb ==> {
                &&& n == old(self).consumer.wrapping_add(old(self).size).wrapping_sub(
                    old(self).cached_prod,
                )
                &&& *final(self) == (XskRingProd {
                    cached_cons: old(self).consumer.wrapping_add(old(self).size),
                    ..*old(self)
                })
            },
            old(self).wf() ==> {
                &&& final(self).wf()
                &&& n <= old(self).size - old(self).cached_prod.wrapping_sub(old(self).consumer)
                &&& n <= old(self).free()
                &&& n >= nb || n == old(self).free()
            },
    {
        let free_entries = self.cached_cons.wrapping_sub(self.cached_prod);
        if free_entries >= nb {
            return free_entries;
        }
        self.cached_cons = self.consumer.wrapping_add(self.size);
        self.cached_cons.wrapping_sub(self.cached_prod)
    }

    /// Reserves `nb` slots, all of them or none. Returns how many were
    /// reserved, and sets `idx` to the position of the first if any
    /// were (`xsk_ring_prod__reserve`).
    pub fn reserve(&mut self, nb: u32, idx: &mut u32) -> (cnt: u32)
        ensures
            *final(self) == old(self).reserved_for(nb),
            cnt == if old(self).refreshed_for(nb).cached_free() < nb {
                0
            } else {
                nb
            },
            *final(idx) == if old(self).refreshed_for(nb).cached_free() < nb {
                *old(idx)
            } else {
                old(self).cached_prod
            },
            old(self).wf() ==> {
                &&& final(self).wf()
                &&& cnt == if nb <= old(self).free() {
                    nb
                } else {
                    0
                }
                &&& final(self).free() == old(self).free() - cnt
                &&& cnt == if nb <= old(self).size - old(self).cached_prod.wrapping_sub(
                    old(self).consumer,
                ) {
                    nb
                } else {
                    0
                }
            },
            cnt == nb || cnt == 0,
            *final(self) == (XskRingProd {
                cached_prod: old(self).cached_prod.wrapping_add(cnt),
                cached_cons: if old(self).cached_cons.wrapping_sub(old(self).cached_prod) >= nb {
                    old(self).cached_cons
                } else {
                    old(self).consumer.wrapping_add(old(self).size)
                },
                ..*old(self)
            }),
            cnt > 0 ==> *final(idx) == old(self).cached_prod,
    {
        if self.nb_free(nb) < nb {
            return 0;
        }
        *idx = self.cached_prod;
        self.cached_prod = self.cached_prod.wrapping_add(nb);
        nb
    }

    /// Hands the next `nb` reserved entries over to the kernel
    /// (`xsk_ring_prod__submit`).
    pub fn submit(&mut self, nb: u32)
        ensures
            *final(self) == (XskRingProd {
                producer: old(self).producer.wrapping_add(nb),
                ..*old(self)
            }),
            old(self).wf() && nb <= old(self).nb_reserved() ==> {
                &&& final(self).wf()
                &&& final(self).free() == old(self).free()
                &&& final(self).pending() == old(self).pending() + slots::entries_from(
                    old(self).ring@,
                    old(self).producer,
                    nb as int,
                )
            },
    {
        proof {
            if self.wf() && nb <= self.nb_reserved() {
                slots::entries_split(self.ring@, self.consumer, self.nb_pending() as int, nb as int);
            }
        }
        self.producer = self.producer.wrapping_add(nb);
    }

    /// Whether the kernel has to be woken up before it goes on
    /// processing the ring (`xsk_ring_prod__needs_wakeup`).
    pub fn needs_wakeup(&self) -> (r: bool)
        ensures
            r == (self.flags % 2 == 1),
    {
        let flags = self.flags;
        assert(flags & 1 != 0 <==> flags % 2 == 1) by (bit_vector);
        self.flags & XDP_RING_NEED_WAKEUP != 0
    }

    /// The kernel has taken `nb` entries off the ring: the oldest of
    /// those pending.
    pub fn kernel_consume(&mut self, nb: u32)
        requires
            old(self).wf(),
            nb <= old(self).nb_pending(),
        ensures
            *final(self) == (XskRingProd {
                consumer: old(self).consumer.wrapping_add(nb),
                ..*old(self)
            }),
            final(self).wf(),
            final(self).free() == old(self).free() + nb,
            final(self).pending() == old(self).pending().skip(nb as int),
    {
        proof {
            slots::entries_split(
                self.ring@,
                self.consumer,
                nb as int,
                self.nb_pending() as int - nb,
            );
        }
        self.consumer = self.consumer.wrapping_add(nb);
        assert(self.pending() =~= old(self).pending().skip(nb as int));
    }
}

impl<T: Copy> XskRingProd<T> {
    /// Writes `entry` to the slot of position `idx`, which is the one
    /// that `xsk_ring_prod__fill_addr` points at.
    pub fn write(&mut self, idx: u32, entry: T)
        requires
            old(self).laid_out(),
        ensures
            final(self).ring@ == slots::written(old(self).ring@, idx, seq![entry]),
            final(self).ring@ == old(self).ring@.update(idx as int % old(self).size as int, entry),
            *final(self) == (XskRingProd { ring: final(self).ring, ..*old(self) }),
    {
        proof {
            slots::mask_gives_slot(self.size, idx);
            slots::written_one_updates_slot(self.ring@, idx, entry);
        }
        let at: usize = (idx & self.mask) as usize;
        self.ring[at] = entry;
    }
}

impl<T> Default for XskRingProd<T> {
    /// A ring with no memory mapped for it.
    fn default() -> (r: Self)
        ensures
            r.cached_prod == 0,
            r.cached_cons == 0,
            r.mask == 0,
            r.size == 0,
            r.producer == 0,
            r.consumer == 0,
            r.ring@.len() == 0,
            r.flags == 0,
    {
        XskRingProd {
            cached_prod: 0,
            cached_cons: 0,
            mask: 0,
            size: 0,
            producer: 0,
            consumer: 0,
            ring: Vec::new(),
            flags: 0,
        }
    }
}

/// The number of free slots on a producer ring.
///
/// [`XskRingProd::nb_free`] answers from the cached position only where
/// that leaves as many slots as were asked for. Asking for the size of
/// the ring therefore gives a count that is always up to date.
pub fn prod_nb_free_exact<T>(ring: &mut XskRingProd<T>) -> (n: u32)
    ensures
        *final(ring) == old(ring).refreshed_for(old(ring).size),
        n == final(ring).cached_free(),
        *final(ring) == (XskRingProd { cached_cons: final(ring).cached_cons, ..*old(ring) }),
        old(ring).wf() ==> {
            &&& final(ring).wf()
            &&& n == old(ring).free()
            &&& n == old(ring).size - old(ring).cached_prod.wrapping_sub(old(ring).consumer)
            &&& final(ring).cached_cons == old(ring).consumer.wrapping_add(old(ring).size)
        },
{
    let size = ring.size;
    ring.nb_free(size)
}

/// A consumer ring: entries are written by the kernel and taken by user
/// space.
#[derive(Debug)]
pub struct XskRingCons<T> {
    /// The kernel's position as last read.
    pub cached_prod: u32,
    /// The position after the last entry peeked at.
    pub cached_cons: u32,
    /// The size of the ring less one.
    pub mask: u32,
    /// The number of slots.
    pub size: u32,
    /// The position after the last entry written by the kernel.
    pub producer: u32,
    /// The position after the last entry released to the kernel.
    pub consumer: u32,
    /// The slots, or nothing if no memory has been mapped.
    pub ring: Vec<T>,
    /// Flags set by the kernel.
    pub flags: u32,
}

impl<T> XskRingCons<T> {
    /// The ring has memory, a power of two of slots of it, and the
    /// mask that goes with them.
    pub open spec fn laid_out(self) -> bool {
        &&& slots::is_ring_size(self.size)
        &&& self.mask == self.size - 1
        &&& self.ring@.len() == self.size
    }

    /// Entries peeked at and not yet released.
    pub open spec fn nb_peeked(self) -> u32 {
        self.cached_cons.wrapping_sub(self.consumer)
    }

    /// Entries not yet peeked at, going by the cached producer
    /// position.
    pub open spec fn nb_known(self) -> u32 {
        self.cached_prod.wrapping_sub(self.cached_cons)
    }

    /// Entries written by the kernel since its position was last read.
    pub open spec fn nb_unseen(self) -> u32 {
        self.producer.wrapping_sub(self.cached_prod)
    }

    /// The ring is laid out and its positions are in order: the
    /// consumer, the cached consumer, the cached producer and the
    /// producer follow one another within the size of the ring.
    pub open spec fn wf(self) -> bool {
        &&& self.laid_out()
        &&& self.nb_peeked() + self.nb_known() + self.nb_unseen() <= self.size
    }

    /// Nothing is peeked at that has not been released.
    pub open spec fn settled(self) -> bool {
        self.cached_cons == self.consumer
    }

    /// The number of entries not yet peeked at.
    pub open spec fn avail(self) -> u32 {
        self.producer.wrapping_sub(self.cached_cons)
    }

    /// The entries not yet peeked at, oldest first.
    pub open spec fn pending(self) -> Seq<T> {
        slots::entries_from(self.ring@, self.cached_cons, self.avail() as int)
    }

    /// The ring once the kernel's position has been read, if there is
    /// nothing left going by the cached one.
    pub open spec fn refreshed(self) -> Self {
        if self.nb_known() == 0 {
            XskRingCons { cached_prod: self.producer, ..self }
        } else {
            self
        }
    }

    /// How many entries a peek for `nb` yields.
    pub open spec fn nb_within(self, nb: u32) -> u32 {
        if self.refreshed().nb_known() > nb {
            nb
        } else {
            self.refreshed().nb_known()
        }
    }

    /// The ring once up to `nb` entries have been peeked at.
    pub open spec fn peeked_for(self, nb: u32) -> Self {
        XskRingCons {
            cached_cons: self.cached_cons.wrapping_add(self.nb_within(nb)),
            ..self.refreshed()
        }
    }

    /// The ring once up to `nb` entries have been peeked at and their
    /// slots handed back to the kernel.
    pub open spec fn consumed_for(self, nb: u32) -> Self {
        XskRingCons {
            consumer: self.consumer.wrapping_add(self.nb_within(nb)),
            ..self.peeked_for(nb)
        }
    }

    /// A ring nothing has been put on yet, with `ring` as its memory.
    pub fn new(ring: Vec<T>) -> (r: Self)
        requires
            ring@.len() <= u32::MAX,
            slots::is_ring_size(ring@.len() as u32),
        ensures
            r.wf(),
            r.settled(),
            r.ring == ring,
            r.size == ring@.len(),
            r.mask == r.size - 1,
            r.cached_prod == 0,
            r.cached_cons == 0,
            r.producer == 0,
            r.consumer == 0,
            r.flags == 0,
            r.avail() == 0,
            r.pending() == Seq::<T>::empty(),
    {
        proof {
            slots::mask_gives_slot(ring@.len() as u32, 0);
        }
        let size: u32 = ring.len() as u32;
        XskRingCons {
            cached_prod: 0,
            cached_cons: 0,
            mask: size - 1,
            size,
            producer: 0,
            consumer: 0,
            ring,
            flags: 0,
        }
    }

    /// Whether the ring is laid out and its positions are in order.
    pub fn is_consistent(&self) -> (r: bool)
        ensures
            r == self.wf(),
            r == {
                &&& self.size != 0 && self.size & (self.size - 1) as u32 == 0
                &&& self.mask == self.size - 1
                &&& self.ring@.len() == self.size
                &&& self.cached_cons.wrapping_sub(self.consumer) + self.cached_prod.wrapping_sub(
                    self.cached_cons,
                ) + self.producer.wrapping_sub(self.cached_prod) <= self.size
            },
    {
        proof {
            slots::ring_size_has_one_bit(self.size);
        }
        if self.size == 0 || self.size & (self.size - 1) != 0 {
            return false;
        }
        if self.mask != self.size - 1 || self.ring.len() != self.size as usize {
            return false;
        }
        let peeked = self.cached_cons.wrapping_sub(self.consumer);
        let known = self.cached_prod.wrapping_sub(self.cached_cons);
        let unseen = self.producer.wrapping_sub(self.cached_prod);
        peeked as u64 + known as u64 + unseen as u64 <= self.size as u64
    }

    /// Whether the ring has no memory.
    pub fn is_ring_null(&self) -> (r: bool)
        ensures
            r == (self.ring@.len() == 0),
    {
        self.ring.len() == 0
    }

    /// The number of entries ready to be consumed, up to `nb`.
    ///
    /// Answers from the cached producer position unless that leaves
    /// nothing, in which case the kernel's is read
    /// (`xsk_cons_nb_avail`).
    pub fn nb_avail(&mut self, nb: u32) -> (n: u32)
        ensures
            *final(self) == old(self).refreshed(),
            n == old(self).nb_within(nb),
            // What the cache accounts for, or what there is if that is
            // nothing, up to `nb`.
            ({
                let known = if old(self).cached_prod != old(self).cached_cons {
                    old(self).cached_prod.wrapping_sub(old(self).cached_cons)
                } else {
                    old(self).producer.wrapping_sub(old(self).cached_cons)
                };
                n == if nb < known {
                    nb
                } else {
                    known
                }
            }),
            *final(self) == (XskRingCons {
                cached_prod: if old(self).cached_prod != old(self).cached_cons {
                    old(self).cached_prod
                } else {
                    old(self).producer
                },
                ..*old(self)
            }),
            old(self).wf() ==> {
                &&& final(self).wf()
                &&& final(self).pending() == old(self).pending()
                &&& n <= old(self).avail()
                &&& n <= nb
                &&& n == 0 ==> nb == 0 || old(self).avail() == 0
            },
    {
        let mut entries: u32 = self.cached_prod.wrapping_sub(self.cached_cons);
        if entries == 0 {
            self.cached_prod = self.producer;
            entries = self.cached_prod.wrapping_sub(self.cached_cons);
        }
        if entries > nb {
            nb
        } else {
            entries
        }
    }

    /// Peeks at up to `nb` entries. Returns how many there are, and
    /// sets `idx` to the position of the first if there are any
    /// (`xsk_ring_cons__peek`).
    #[verifier::rlimit(40)]
    pub fn peek(&mut self, nb: u32, idx: &mut u32) -> (cnt: u32)
        ensures
            *final(self) == old(self).peeked_for(nb),
            cnt == old(self).nb_within(nb),
            // What the cache accounts for, or what there is if that is
            // nothing, up to `nb`.
            ({
                let known = if old(self).cached_prod != old(self).cached_cons {
                    old(self).cached_prod.wrapping_sub(old(self).cached_cons)
                } else {
                    old(self).producer.wrapping_sub(old(self).cached_cons)
                };
                cnt == if nb < known {
                    nb
                } else {
                    known
                }
            }),
            *final(self) == (XskRingCons {
                cached_prod: if old(self).cached_prod != old(self).cached_cons {
                    old(self).cached_prod
                } else {
                    old(self).producer
                },
                cached_cons: old(self).cached_cons.wrapping_add(cnt),
                ..*old(self)
            }),
            *final(idx) == if cnt > 0 {
                old(self).cached_cons
            } else {
                *old(idx)
            },
            old(self).wf() ==> {
                &&& final(self).wf()
                &&& final(self).nb_peeked() == old(self).nb_peeked() + cnt
                &&& final(self).pending() == old(self).pending().skip(cnt as int)
                &&& slots::entries_from(
                    old(self).ring@,
                    old(self).cached_cons,
                    cnt as int,
                ) == old(self).pending().take(cnt as int)
            },
    {
        let entries = self.nb_avail(nb);
        if entries > 0 {
            *idx = self.cached_cons;
            self.cached_cons = self.cached_cons.wrapping_add(entries);
        }
        proof {
            if old(self).wf() {
                slots::entries_split(
                    self.ring@,
                    old(self).cached_cons,
                    entries as int,
                    old(self).avail() as int - entries,
                );
                assert(self.pending() =~= old(self).pending().skip(entries as int));
                assert(slots::entries_from(
                    old(self).ring@,
                    old(self).cached_cons,
                    entries as int,
                ) =~= old(self).pending().take(entries as int));
            }
        }
        entries
    }

    /// Gives the last `nb` entries peeked at back, so that they will be
    /// peeked at again (`xsk_ring_cons__cancel`).
    pub fn cancel(&mut self, nb: u32)
        ensures
            *final(self) == (XskRingCons {
                cached_cons: old(self).cached_cons.wrapping_sub(nb),
                ..*old(self)
            }),
            old(self).wf() && nb <= old(self).nb_peeked() ==> {
                &&& final(self).wf()
                &&& final(self).pending() == slots::entries_from(
                    old(self).ring@,
                    old(self).cached_cons.wrapping_sub(nb),
                    nb as int,
                ) + old(self).pending()
            },
    {
        self.cached_cons = self.cached_cons.wrapping_sub(nb);
        proof {
            if old(self).wf() && nb <= old(self).nb_peeked() {
                slots::entries_split(
                    self.ring@,
                    self.cached_cons,
                    nb as int,
                    old(self).avail() as int,
                );
            }
        }
    }

    /// Hands the slots of the next `nb` entries peeked at back to the
    /// kernel (`xsk_ring_cons__release`).
    pub fn release(&mut self, nb: u32)
        ensures
            *final(self) == (XskRingCons {
                consumer: old(self).consumer.wrapping_add(nb),
                ..*old(self)
            }),
            old(self).wf() && nb <= old(self).nb_peeked() ==> {
                &&& final(self).wf()
                &&& final(self).pending() == old(self).pending()
            },
    {
        self.consumer = self.consumer.wrapping_add(nb);
    }
}

impl<T: Copy> XskRingCons<T> {
    /// The entry in the slot of position `idx`, which is the one that
    /// `xsk_ring_cons__comp_addr` and `xsk_ring_cons__rx_desc` point at.
    pub fn entry(&self, idx: u32) -> (r: T)
        requires
            self.laid_out(),
        ensures
            r == self.ring@[slots::slot(self.size as int, idx)],
            r == self.ring@[idx as int % self.size as int],
    {
        proof {
            slots::mask_gives_slot(self.size, idx);
        }
        let at: usize = (idx & self.mask) as usize;
        self.ring[at]
    }

    /// The kernel has written `entries` to the ring, behind those it
    /// had written already.
    #[verifier::rlimit(40)]
    pub fn kernel_produce(&mut self, entries: &[T])
        requires
            old(self).wf(),
            old(self).nb_peeked() + old(self).avail() + entries@.len() <= old(self).size,
        ensures
            final(self).ring@ == slots::written(
                old(self).ring@,
                old(self).producer,
                entries@,
            ),
            *final(self) == (XskRingCons {
                producer: old(self).producer.wrapping_add(entries@.len() as u32),
                ring: final(self).ring,
                ..*old(self)
            }),
            final(self).ring@.len() == old(self).ring@.len(),
            forall|i: int|
                0 <= i < entries@.len() ==> final(self).ring@[(old(self).producer + i)
                    % old(self).size as int] == #[trigger] entries@[i],
            forall|s: int|
                0 <= s < old(self).size && (s - old(self).producer) % old(self).size as int
                    >= entries@.len() ==> #[trigger] final(self).ring@[s] == old(self).ring@[s],
            final(self).wf(),
            final(self).pending() == old(self).pending() + entries@,
    {
        let nb: u32 = entries.len() as u32;
        let mut i: u32 = 0;
        assert(slots::written(self.ring@, self.producer, entries@.take(0)) =~= self.ring@);
        while i < nb
            invariant
                nb == entries@.len(),
                i <= nb,
                nb <= old(self).size,
                old(self).laid_out(),
                *self == (XskRingCons {
                    producer: old(self).producer.wrapping_add(i),
                    ring: self.ring,
                    ..*old(self)
                }),
                self.ring@ == slots::written(
                    old(self).ring@,
                    old(self).producer,
                    entries@.take(i as int),
                ),
            decreases nb - i,
        {
            proof {
                slots::mask_gives_slot(self.size, self.producer);
                slots::written_one_updates_slot(self.ring@, self.producer, entries@[i as int]);
                slots::written_extends(
                    old(self).ring@,
                    old(self).producer,
                    entries@.take(i as int),
                    entries@[i as int],
                );
                assert(entries@.take(i as int).push(entries@[i as int]) =~= entries@.take(i + 1));
            }
            let at: usize = (self.producer & self.mask) as usize;
            self.ring[at] = entries[i as usize];
            self.producer = self.producer.wrapping_add(1);
            i += 1;
        }
        assert(entries@.take(nb as int) =~= entries@);
        assert(self.pending() == old(self).pending() + entries@) by {
            let before = old(self).avail() as int;
            slots::written_reads_back(old(self).ring@, old(self).producer, entries@);
            slots::written_keeps_earlier(
                old(self).ring@,
                old(self).cached_cons,
                before,
                entries@,
            );
            slots::entries_split(self.ring@, self.cached_cons, before, nb as int);
        }
        proof {
            slots::entries_are_written_round_the_ring(
                old(self).ring@,
                old(self).producer,
                entries@,
            );
        }
    }
}

impl<T> Default for XskRingCons<T> {
    /// A ring with no memory mapped for it.
    fn default() -> (r: Self)
        ensures
            r.cached_prod == 0,
            r.cached_cons == 0,
            r.mask == 0,
            r.size == 0,
            r.producer == 0,
            r.consumer == 0,
            r.ring@.len() == 0,
            r.flags == 0,
    {
        XskRingCons {
            cached_prod: 0,
            cached_cons: 0,
            mask: 0,
            size: 0,
            producer: 0,
            consumer: 0,
            ring: Vec::new(),
            flags: 0,
        }
    }
}

/// The number of entries ready to be consumed on a consumer ring.
///
/// The first peek takes the entries the cached position accounts for.
/// The second then finds that cache empty and reads the kernel's
/// position, which gives the entries the cache did not account for.
/// Cancelling both leaves every entry for a later peek: cancelling
/// between them would refill the cache, and the second would count the
/// same entries again.
#[verifier::rlimit(40)]
pub fn cons_nb_avail_exact<T>(ring: &mut XskRingCons<T>) -> (n: u32)
    requires
        old(ring).wf(),
    ensures
        n == old(ring).avail(),
        n == old(ring).producer.wrapping_sub(old(ring).cached_cons),
        *final(ring) == (XskRingCons { cached_prod: old(ring).producer, ..*old(ring) }),
        final(ring).wf(),
        final(ring).pending() == old(ring).pending(),
{
    let size = ring.size;
    let mut idx: u32 = 0;
    let cached = ring.peek(size, &mut idx);
    let n = cached + ring.peek(size, &mut idx);
    ring.cancel(n);
    n
}

/// The number of entries to ask for to fill `len` elements, in the 32
/// bits that it is asked for in.
pub(crate) fn batch_size(len: usize) -> (nb: u32)
    ensures
        nb == len as int % 0x1_0000_0000,
{
    let nb: u32 = (len as u64 % 0x1_0000_0000) as u32;
    nb
}

/// With nothing reserved, every slot is either free or holds an entry
/// that the kernel has yet to take.
pub proof fn free_and_pending_make_up_the_ring<T>(ring: XskRingProd<T>)
    requires
        ring.wf(),
        ring.settled(),
    ensures
        ring.free() + ring.pending().len() == ring.size,
{
}

/// The cached count of free slots only ever falls short of the real
/// one, by what the kernel has taken since its position was last read.
pub proof fn cached_free_falls_short_by_what_was_taken<T>(ring: XskRingProd<T>)
    requires
        ring.wf(),
    ensures
        ring.cached_free() + ring.nb_taken() == ring.free(),
{
}

/// Taking the exact count of free slots changes nothing that a later
/// call can tell apart: what is pending and what is free stay the same,
/// the producer position stays where it was, and any number of slots
/// that is free can be reserved from there.
pub proof fn exact_free_count_disturbs_nothing<T>(ring: XskRingProd<T>, nb: u32)
    requires
        ring.wf(),
        nb <= ring.free(),
    ensures
        ({
            let counted = ring.refreshed_for(ring.size);
            &&& counted.pending() == ring.pending()
            &&& counted.free() == ring.free()
            &&& counted.cached_prod == ring.cached_prod
            &&& counted.refreshed_for(nb) == counted
            &&& counted.reserved_for(nb).cached_prod == ring.cached_prod.wrapping_add(nb)
        }),
{
}

/// The count of free slots tells whether as many as were asked about
/// can be reserved: it reaches `nb` exactly if `nb` slots are free, and
/// reserving them right after it then succeeds.
pub proof fn nb_free_foretells_reserve<T>(ring: XskRingProd<T>, nb: u32)
    requires
        ring.wf(),
    ensures
        ring.refreshed_for(nb).cached_free() >= nb <==> nb <= ring.free(),
        ring.refreshed_for(nb).reserved_for(nb) == ring.reserved_for(nb),
        nb <= ring.free() ==> ring.reserved_for(nb).free() == ring.free() - nb,
{
}

/// The cached producer position only ever trails the real one: the
/// entries it accounts for fall short of those available by what the
/// kernel has written since.
pub proof fn known_falls_short_by_what_is_unseen<T>(ring: XskRingCons<T>)
    requires
        ring.wf(),
    ensures
        ring.nb_known() + ring.nb_unseen() == ring.avail(),
        ring.pending().len() == ring.avail(),
{
}

/// A peek for any entries at all yields some exactly if there are some.
pub proof fn peek_finds_what_there_is<T>(ring: XskRingCons<T>, nb: u32)
    requires
        ring.wf(),
        nb > 0,
    ensures
        ring.nb_within(nb) > 0 <==> ring.pending().len() > 0,
{
}

/// The count of available entries is what a peek for as many yields
/// right after it.
pub proof fn nb_avail_foretells_peek<T>(ring: XskRingCons<T>, nb: u32)
    ensures
        ring.refreshed().nb_within(nb) == ring.nb_within(nb),
        ring.refreshed().peeked_for(nb) == ring.peeked_for(nb),
{
}

/// Cancelling a peek undoes it, but for the cached producer position:
/// that stays as up to date as the peek has made it.
pub proof fn cancel_undoes_peek<T>(ring: XskRingCons<T>, nb: u32)
    ensures
        ({
            let peeked = ring.peeked_for(nb);
            let cancelled = XskRingCons {
                cached_cons: peeked.cached_cons.wrapping_sub(ring.nb_within(nb)),
                ..peeked
            };
            &&& cancelled == ring.refreshed()
            &&& cancelled.pending() == ring.pending()
        }),
{
}

/// Peeking twice for the size of the ring counts every entry there is
/// at the time of the second peek, whatever the kernel has written in
/// between: the entries peeked at are those from the first that was
/// available up to the last written, and cancelling as many leaves all
/// of them for a later peek.
#[verifier::rlimit(40)]
pub proof fn two_peeks_count_every_entry<T>(ring: XskRingCons<T>, later: XskRingCons<T>)
    requires
        ring.wf(),
        later.wf(),
        later == (XskRingCons {
            producer: later.producer,
            ring: later.ring,
            ..ring.peeked_for(ring.size)
        }),
    ensures
        ({
            let n = ring.nb_within(ring.size) + later.nb_within(ring.size);
            let cancelled = XskRingCons {
                cached_cons: later.peeked_for(ring.size).cached_cons.wrapping_sub(n as u32),
                ..later.peeked_for(ring.size)
            };
            &&& n == later.producer.wrapping_sub(ring.cached_cons)
            &&& cancelled.cached_cons == ring.cached_cons
            &&& cancelled.consumer == ring.consumer
            &&& cancelled.nb_known() == n
            &&& cancelled.avail() == n
        }),
{
}

/// Counting the entries exactly twice over gives the same count: the
/// first leaves the ring as the second finds and leaves it.
pub proof fn exact_count_is_idempotent<T>(ring: XskRingCons<T>)
    requires
        ring.wf(),
    ensures
        ({
            let counted = XskRingCons { cached_prod: ring.producer, ..ring };
            &&& counted.wf()
            &&& counted.avail() == ring.avail()
            &&& counted.pending() == ring.pending()
            &&& counted == XskRingCons { cached_prod: counted.producer, ..counted }
        }),
{
}

/// Once the entries have been counted exactly, as many as were counted
/// can be consumed at once: a peek for `nb` falls short only of what
/// there is.
pub proof fn exact_count_can_be_consumed<T>(ring: XskRingCons<T>, nb: u32)
    requires
        ring.wf(),
    ensures
        ({
            let counted = XskRingCons { cached_prod: ring.producer, ..ring };
            counted.nb_within(nb) == if nb < ring.avail() {
                nb
            } else {
                ring.avail()
            }
        }),
{
}

/// Consuming up to `nb` entries takes the oldest of them off the ring,
/// leaves the rest and ring memory as they were, and gives the kernel as
/// many slots to write to.
#[verifier::rlimit(40)]
pub proof fn consuming_takes_the_oldest<T>(ring: XskRingCons<T>, nb: u32)
    requires
        ring.wf(),
        ring.settled(),
    ensures
        ring.nb_within(nb) <= ring.pending().len(),
        ring.consumed_for(nb).wf(),
        ring.consumed_for(nb).settled(),
        ring.consumed_for(nb).ring == ring.ring,
        ring.consumed_for(nb).pending() == ring.pending().skip(ring.nb_within(nb) as int),
        ring.consumed_for(nb).producer.wrapping_sub(ring.consumed_for(nb).consumer)
            == ring.producer.wrapping_sub(ring.consumer) - ring.nb_within(nb),
{
    let n = ring.nb_within(nb) as int;
    let after = ring.consumed_for(nb);
    slots::entries_split(ring.ring@, ring.cached_cons, n, ring.avail() - n);
    assert(after.pending() =~= ring.pending().skip(n));
}

/// Consuming hands entries out oldest first, and none of them twice:
/// what two batches get is, put together, the oldest entries there
/// were, and the rest is left.
pub proof fn consuming_keeps_order<T>(ring: XskRingCons<T>, nb1: u32, nb2: u32)
    requires
        ring.wf(),
        ring.settled(),
    ensures
        ({
            let once = ring.consumed_for(nb1);
            let twice = once.consumed_for(nb2);
            let n1 = ring.nb_within(nb1) as int;
            let n2 = once.nb_within(nb2) as int;
            &&& n1 + n2 <= ring.pending().len()
            &&& ring.pending().take(n1) + once.pending().take(n2) == ring.pending().take(n1 + n2)
            &&& twice.pending() == ring.pending().skip(n1 + n2)
        }),
{
    let once = ring.consumed_for(nb1);
    let all = ring.pending();
    let n1 = ring.nb_within(nb1) as int;
    let n2 = once.nb_within(nb2) as int;
    consuming_takes_the_oldest(ring, nb1);
    consuming_takes_the_oldest(once, nb2);
    assert(all.take(n1) + all.skip(n1).take(n2) =~= all.take(n1 + n2));
    assert(all.skip(n1).skip(n2) =~= all.skip(n1 + n2));
}

/// What the kernel writes to a ring that was empty is what is consumed
/// from it, in the order it was written and as much of it as is asked
/// for. `later` is the ring that [`XskRingCons::kernel_produce`] leaves.
pub proof fn entries_written_are_consumed<T>(
    ring: XskRingCons<T>,
    entries: Seq<T>,
    later: XskRingCons<T>,
    nb: u32,
)
    requires
        ring.wf(),
        ring.settled(),
        ring.pending().len() == 0,
        later == (XskRingCons { producer: later.producer, ring: later.ring, ..ring }),
        later.wf(),
        later.pending() == ring.pending() + entries,
    ensures
        later.pending() == entries,
        later.nb_within(nb) == if nb < entries.len() {
            nb as int
        } else {
            entries.len() as int
        },
        nb >= entries.len() ==> {
            &&& later.pending().take(later.nb_within(nb) as int) == entries
            &&& later.consumed_for(nb).pending().len() == 0
        },
{
    assert(later.pending() =~= entries);
    assert(later.pending().take(entries.len() as int) =~= entries);
}

/// What a producer ring's positions say of it, on a ring of `size`
/// slots: `producer - consumer` entries are pending, the oldest of them
/// in slot `consumer % size` and each further one in the next, and
/// `size - (cached_prod - consumer)` slots are free. Going by the cached
/// position, `cached_cons - cached_prod` are.
pub proof fn positions_of_a_producer_ring<T>(ring: XskRingProd<T>)
    requires
        ring.wf(),
    ensures
        ring.size != 0 && ring.size & (ring.size - 1) as u32 == 0,
        ring.mask == ring.size - 1,
        ring.ring@.len() == ring.size,
        ring.settled() <==> ring.cached_prod == ring.producer,
        ring.pending().len() == ring.producer.wrapping_sub(ring.consumer),
        forall|i: int|
            0 <= i < ring.pending().len() ==> #[trigger] ring.pending()[i] == ring.ring@[(
            ring.consumer + i) % ring.size as int],
        ring.free() == ring.size - ring.cached_prod.wrapping_sub(ring.consumer),
        ring.cached_free() == ring.cached_cons.wrapping_sub(ring.cached_prod),
        ring.cached_free() <= ring.free() <= ring.size,
{
    slots::ring_size_has_one_bit(ring.size);
    slots::entries_lie_round_the_ring(ring.ring@, ring.consumer, ring.nb_pending() as int);
}

/// A producer ring is well-formed exactly if it has a power of two of
/// slots and the mask that goes with them, and if what the kernel has
/// taken unnoticed, what it has yet to take and what is reserved fit on
/// it together.
pub proof fn producer_ring_is_well_formed_by_positions<T>(ring: XskRingProd<T>)
    ensures
        ring.wf() <==> {
            &&& ring.size != 0 && ring.size & (ring.size - 1) as u32 == 0
            &&& ring.mask == ring.size - 1
            &&& ring.ring@.len() == ring.size
            &&& ring.consumer.wrapping_sub(ring.cached_cons.wrapping_sub(ring.size))
                + ring.producer.wrapping_sub(ring.consumer) + ring.cached_prod.wrapping_sub(
                ring.producer,
            ) <= ring.size
        },
{
    slots::ring_size_has_one_bit(ring.size);
}

/// What a consumer ring's positions say of it, on a ring of `size`
/// slots: `producer - cached_cons` entries are there to be peeked at,
/// the oldest of them in slot `cached_cons % size` and each further one
/// in the next.
pub proof fn positions_of_a_consumer_ring<T>(ring: XskRingCons<T>)
    requires
        ring.wf(),
    ensures
        ring.size != 0 && ring.size & (ring.size - 1) as u32 == 0,
        ring.mask == ring.size - 1,
        ring.ring@.len() == ring.size,
        ring.settled() <==> ring.cached_cons == ring.consumer,
        ring.avail() == ring.producer.wrapping_sub(ring.cached_cons),
        ring.pending().len() == ring.producer.wrapping_sub(ring.cached_cons),
        forall|i: int|
            0 <= i < ring.pending().len() ==> #[trigger] ring.pending()[i] == ring.ring@[(
            ring.cached_cons + i) % ring.size as int],
{
    slots::ring_size_has_one_bit(ring.size);
    slots::entries_lie_round_the_ring(ring.ring@, ring.cached_cons, ring.avail() as int);
}

/// A consumer ring is well-formed exactly if it has a power of two of
/// slots and the mask that goes with them, and if what is peeked at,
/// what the cache accounts for and what the kernel has written unnoticed
/// fit on it together.
pub proof fn consumer_ring_is_well_formed_by_positions<T>(ring: XskRingCons<T>)
    ensures
        ring.wf() <==> {
            &&& ring.size != 0 && ring.size & (ring.size - 1) as u32 == 0
            &&& ring.mask == ring.size - 1
            &&& ring.ring@.len() == ring.size
            &&& ring.cached_cons.wrapping_sub(ring.consumer) + ring.cached_prod.wrapping_sub(
                ring.cached_cons,
            ) + ring.producer.wrapping_sub(ring.cached_prod) <= ring.size
        },
{
    slots::ring_size_has_one_bit(ring.size);
}

/// The count of available entries, up to `nb`, is what the cached
/// producer position accounts for if that is anything, and what there is
/// otherwise. A peek for `nb`, and consuming `nb`, takes as many.
pub proof fn count_goes_by_the_cache_until_it_is_empty<T>(ring: XskRingCons<T>, nb: u32)
    requires
        ring.wf(),
    ensures
        ring.cached_prod != ring.cached_cons ==> ring.nb_within(nb) == if nb
            < ring.cached_prod.wrapping_sub(ring.cached_cons) {
            nb
        } else {
            ring.cached_prod.wrapping_sub(ring.cached_cons)
        },
        ring.cached_prod == ring.cached_cons ==> ring.nb_within(nb) == if nb
            < ring.producer.wrapping_sub(ring.cached_cons) {
            nb
        } else {
            ring.producer.wrapping_sub(ring.cached_cons)
        },
        ring.cached_prod == ring.producer ==> ring.nb_within(nb) == if nb
            < ring.producer.wrapping_sub(ring.cached_cons) {
            nb
        } else {
            ring.producer.wrapping_sub(ring.cached_cons)
        },
        ring.peeked_for(nb).cached_cons.wrapping_sub(ring.cached_cons) == ring.nb_within(nb),
        ring.consumed_for(nb).cached_cons.wrapping_sub(ring.cached_cons) == ring.nb_within(nb),
        ring.consumed_for(nb).consumer.wrapping_sub(ring.consumer) == ring.nb_within(nb),
        ring.consumed_for(nb).producer == ring.producer,
        ring.consumed_for(nb).ring == ring.ring,
        ring.consumed_for(nb).size == ring.size,
        ring.consumed_for(nb).mask == ring.mask,
        ring.consumed_for(nb).flags == ring.flags,
        ring.consumed_for(nb).cached_prod == if ring.cached_prod == ring.cached_cons {
            ring.producer
        } else {
            ring.cached_prod
        },
{
}

/// The kernel writing more entries never lowers the count: with anything
/// left in the cache it stays what it was, and with nothing left it
/// grows by what was written, up to `nb`. Asking for more never lowers
/// it either.
pub proof fn more_entries_never_lower_the_count<T>(
    ring: XskRingCons<T>,
    later: XskRingCons<T>,
    nb: u32,
    more: u32,
)
    requires
        ring.wf(),
        later.wf(),
        later == (XskRingCons { producer: later.producer, ring: later.ring, ..ring }),
        ring.pending().len() <= later.pending().len(),
        nb <= more,
    ensures
        ring.nb_within(nb) <= later.nb_within(nb),
        ring.nb_within(nb) <= ring.nb_within(more),
        ring.cached_prod != ring.cached_cons ==> later.nb_within(nb) == ring.nb_within(nb),
        ring.cached_prod == ring.cached_cons && nb >= later.pending().len() ==> later.nb_within(nb)
            - ring.nb_within(nb) == later.pending().len() - ring.pending().len(),
{
}

/// Two batches that are each large enough for everything on the ring
/// take everything between them: the first what the cache accounts for,
/// the second the rest.
pub proof fn two_large_batches_drain_the_ring<T>(ring: XskRingCons<T>, nb1: u32, nb2: u32)
    requires
        ring.wf(),
        ring.settled(),
        nb1 >= ring.pending().len(),
        nb2 >= ring.pending().len(),
    ensures
        ring.nb_within(nb1) + ring.consumed_for(nb1).nb_within(nb2) == ring.pending().len(),
        ring.consumed_for(nb1).consumed_for(nb2).producer == ring.consumed_for(nb1).consumed_for(
            nb2,
        ).consumer,
{
}

} // verus!
