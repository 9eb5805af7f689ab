//! Where free-running ring positions land in ring memory.
//!
//! A position counts entries since the ring was created and wraps at
//! 2^32. A ring has a power of two of slots, so a position's slot is
//! its remainder by the number of slots, a run of positions keeps its
//! order across both wrap-arounds, and no two positions less than a
//! ring size apart share a slot.

use vstd::prelude::*;

verus! {

/// Whether `size` is a number of slots that a ring can have: a power
/// of two.
pub open spec fn is_ring_size(size: u32) -> bool {
    vstd::arithmetic::power2::is_pow2(size as int)
}

/// The slot of position `pos` on a ring of `size` slots.
pub open spec fn slot(size: int, pos: u32) -> int {
    pos as int % size
}

/// The `nb` entries that start at position `pos`, in order.
pub open spec fn entries_from<T>(ring: Seq<T>, pos: u32, nb: int) -> Seq<T> {
    Seq::new(nb as nat, |i: int| ring[slot(ring.len() as int, pos.wrapping_add(i as u32))])
}

/// How many positions after `pos` slot `s` comes up next.
pub open spec fn slots_past(size: int, pos: u32, s: int) -> int {
    (s - pos) % size
}

/// The ring memory `ring` once `src` has been written to it, starting
/// at position `pos`: the first `src.len()` slots from `pos` on hold
/// `src`, and every other slot is as it was.
pub open spec fn written<T>(ring: Seq<T>, pos: u32, src: Seq<T>) -> Seq<T> {
    Seq::new(
        ring.len(),
        |s: int|
            {
                let i = slots_past(ring.len() as int, pos, s);
                if i < src.len() {
                    src[i]
                } else {
                    ring[s]
                }
            },
    )
}

/// A number is a ring size exactly when it has one bit set, which is
/// what the bit test `size & (size - 1)` tells.
pub proof fn ring_size_has_one_bit(size: u32)
    ensures
        is_ring_size(size) <==> size != 0 && size & (size - 1) as u32 == 0,
    decreases size,
{
    reveal(vstd::arithmetic::power2::is_pow2);
    assert(1u32 & 0u32 == 0) by (bit_vector);
    if size > 1 {
        let half = size / 2;
        if size % 2 == 0 {
            assert(size & (size - 1) as u32 == 0 <==> half & (half - 1) as u32 == 0) by (bit_vector)
                requires
                    size > 1,
                    size % 2 == 0,
                    half == size / 2,
            ;
            ring_size_has_one_bit(half);
        } else {
            assert(size & (size - 1) as u32 != 0) by (bit_vector)
                requires
                    size > 1,
                    size % 2 == 1,
            ;
        }
    }
}

/// The power of two that a ring size is.
proof fn lemma_exponent(size: u32) -> (n: nat)
    requires
        is_ring_size(size),
    ensures
        n < 32,
        vstd::arithmetic::power2::pow2(n) == size,
{
    vstd::arithmetic::power2::is_pow2_equiv(size as int);
    let n = choose|i: nat| vstd::arithmetic::power::pow(2, i) == size as int;
    vstd::arithmetic::power2::lemma_pow2(n);
    vstd::arithmetic::power2::lemma2_to64();
    if n > 32 {
        vstd::arithmetic::power2::lemma_pow2_strictly_increases(32, n);
    }
    n
}

/// A ring has at least one slot, and at most 2^31.
pub proof fn ring_size_bounds(size: u32)
    requires
        is_ring_size(size),
    ensures
        0 < size <= 0x8000_0000,
{
    let n = lemma_exponent(size);
    vstd::arithmetic::power2::lemma2_to64();
    vstd::arithmetic::power2::lemma_pow2_pos(n);
    if n < 31 {
        vstd::arithmetic::power2::lemma_pow2_strictly_increases(n, 31);
    }
}

/// Masking a position with `size - 1` gives its slot.
pub proof fn mask_gives_slot(size: u32, pos: u32)
    requires
        is_ring_size(size),
    ensures
        size > 0,
        (pos & (size - 1) as u32) as int == slot(size as int, pos),
        0 <= slot(size as int, pos) < size,
{
    let n = lemma_exponent(size);
    vstd::bits::lemma_u32_low_bits_mask_is_mod(pos, n);
    vstd::arithmetic::power2::lemma_pow2_pos(n);
}

/// Counts that differ by multiples of 2^32 leave the same remainder by
/// a ring size.
proof fn lemma_wrap(size: u32, x: int, y: int, turns: int)
    requires
        is_ring_size(size),
        x == y + turns * 0x1_0000_0000,
    ensures
        size > 0,
        x % size as int == y % size as int,
{
    let n = lemma_exponent(size);
    let q = vstd::arithmetic::power2::pow2((32 - n) as nat) as int;
    vstd::arithmetic::power2::lemma_pow2_pos(n);
    vstd::arithmetic::power2::lemma_pow2_adds(n, (32 - n) as nat);
    vstd::arithmetic::power2::lemma2_to64();
    assert(turns * 0x1_0000_0000 == size as int * (q * turns)) by (nonlinear_arith)
        requires
            0x1_0000_0000 == size as int * q,
    ;
    vstd::arithmetic::div_mod::lemma_mod_multiples_vanish(q * turns, y, size as int);
}

/// The slot of position `other`, counted from position `pos` on, is
/// how far `other` is past `pos`, up to whole turns of the ring.
pub proof fn slots_past_is_distance(size: u32, pos: u32, other: u32)
    requires
        is_ring_size(size),
    ensures
        slots_past(size as int, pos, slot(size as int, other)) == other.wrapping_sub(pos) as int
            % size as int,
{
    mask_gives_slot(size, other);
    let d = other.wrapping_sub(pos) as int;
    let turns = if other >= pos {
        0int
    } else {
        1int
    };
    lemma_wrap(size, d, other - pos, turns);
    vstd::arithmetic::div_mod::lemma_add_mod_noop_right(-(pos as int), other as int, size as int);
}

/// Counted from position `pos` on, the slots come up in order from the
/// slot of `pos` to the last, and then from the first.
pub proof fn slots_past_in_order(size: u32, pos: u32, s: int)
    requires
        is_ring_size(size),
        0 <= s < size,
    ensures
        slots_past(size as int, pos, s) == if slot(size as int, pos) <= s {
            s - slot(size as int, pos)
        } else {
            s - slot(size as int, pos) + size
        },
{
    mask_gives_slot(size, pos);
    let start = slot(size as int, pos);
    vstd::arithmetic::div_mod::lemma_sub_mod_noop_right(s, pos as int, size as int);
    if start <= s {
        vstd::arithmetic::div_mod::lemma_small_mod((s - start) as nat, size as nat);
    } else {
        vstd::arithmetic::div_mod::lemma_mod_add_multiples_vanish(s - start, size as int);
        vstd::arithmetic::div_mod::lemma_small_mod((s - start + size) as nat, size as nat);
    }
}

/// Positions less than a ring size apart have different slots.
pub proof fn slots_are_distinct(size: u32, pos: u32, i: u32, j: u32)
    requires
        is_ring_size(size),
        i < size,
        j < size,
        i != j,
    ensures
        slot(size as int, pos.wrapping_add(i)) != slot(size as int, pos.wrapping_add(j)),
{
    slots_past_is_distance(size, pos, pos.wrapping_add(i));
    slots_past_is_distance(size, pos, pos.wrapping_add(j));
    vstd::arithmetic::div_mod::lemma_small_mod(i as nat, size as nat);
    vstd::arithmetic::div_mod::lemma_small_mod(j as nat, size as nat);
}

/// What was written at a position is what is read from it: no more
/// than a ring full of entries comes back whole and in order, wherever
/// on the ring, and at whatever position, it was written.
pub proof fn written_reads_back<T>(ring: Seq<T>, pos: u32, src: Seq<T>)
    requires
        ring.len() <= u32::MAX,
        is_ring_size(ring.len() as u32),
        src.len() <= ring.len(),
    ensures
        entries_from(written(ring, pos, src), pos, src.len() as int) == src,
{
    let size = ring.len() as u32;
    let back = entries_from(written(ring, pos, src), pos, src.len() as int);
    assert forall|i: int| 0 <= i < src.len() implies back[i] == src[i] by {
        let at = pos.wrapping_add(i as u32);
        mask_gives_slot(size, at);
        slots_past_is_distance(size, pos, at);
        vstd::arithmetic::div_mod::lemma_small_mod(i as nat, size as nat);
    }
    assert(back =~= src);
}

/// Writing a single entry changes the slot of its position, and no
/// other.
pub proof fn written_one_updates_slot<T>(ring: Seq<T>, pos: u32, entry: T)
    requires
        ring.len() <= u32::MAX,
        is_ring_size(ring.len() as u32),
    ensures
        written(ring, pos, seq![entry]) == ring.update(slot(ring.len() as int, pos), entry),
{
    let size = ring.len() as u32;
    mask_gives_slot(size, pos);
    assert forall|s: int| 0 <= s < size implies written(ring, pos, seq![entry])[s] == ring.update(
        slot(size as int, pos),
        entry,
    )[s] by {
        slots_past_in_order(size, pos, s);
    }
}

/// Writing one entry more, at the next position, writes the longer run.
pub proof fn written_extends<T>(ring: Seq<T>, pos: u32, src: Seq<T>, entry: T)
    requires
        ring.len() <= u32::MAX,
        is_ring_size(ring.len() as u32),
        src.len() < ring.len(),
    ensures
        written(written(ring, pos, src), pos.wrapping_add(src.len() as u32), seq![entry])
            == written(ring, pos, src.push(entry)),
{
    let size = ring.len() as u32;
    let next = pos.wrapping_add(src.len() as u32);
    let at = slot(size as int, next);
    mask_gives_slot(size, next);
    slots_past_is_distance(size, pos, next);
    vstd::arithmetic::div_mod::lemma_small_mod(src.len(), size as nat);
    slots_past_in_order(size, pos, at);
    written_one_updates_slot(written(ring, pos, src), next, entry);
    let left = written(ring, pos, src).update(at, entry);
    let right = written(ring, pos, src.push(entry));
    assert forall|s: int| 0 <= s < size implies left[s] == right[s] by {
        slots_past_in_order(size, pos, s);
        mask_gives_slot(size, pos);
    }
    assert(left =~= right);
}

/// Writing at a position leaves the entries before it alone, as long
/// as the two together fit on the ring.
pub proof fn written_keeps_earlier<T>(ring: Seq<T>, from: u32, nb: int, src: Seq<T>)
    requires
        ring.len() <= u32::MAX,
        is_ring_size(ring.len() as u32),
        0 <= nb,
        nb + src.len() <= ring.len(),
    ensures
        entries_from(written(ring, from.wrapping_add(nb as u32), src), from, nb) == entries_from(
            ring,
            from,
            nb,
        ),
{
    let size = ring.len() as u32;
    let pos = from.wrapping_add(nb as u32);
    let new = written(ring, pos, src);
    assert forall|i: int| 0 <= i < nb implies entries_from(new, from, nb)[i] == entries_from(
        ring,
        from,
        nb,
    )[i] by {
        let at = from.wrapping_add(i as u32);
        mask_gives_slot(size, at);
        slots_past_is_distance(size, pos, at);
        lemma_wrap(size, at.wrapping_sub(pos) as int, i - nb, 1);
        vstd::arithmetic::div_mod::lemma_mod_add_multiples_vanish(i - nb, size as int);
        vstd::arithmetic::div_mod::lemma_small_mod((i - nb + size) as nat, size as nat);
    }
    assert(entries_from(new, from, nb) =~= entries_from(ring, from, nb));
}

/// At position `pos`, `nb` entries lie in at most two ranges of slots:
/// from the slot of `pos` up to the last, and on from the first.
pub proof fn entries_in_two_ranges<T>(ring: Seq<T>, pos: u32, nb: int)
    requires
        ring.len() <= u32::MAX,
        is_ring_size(ring.len() as u32),
        0 <= nb <= ring.len(),
    ensures
        entries_from(ring, pos, nb) == {
            let start = slot(ring.len() as int, pos);
            if start + nb <= ring.len() {
                ring.subrange(start, start + nb)
            } else {
                ring.subrange(start, ring.len() as int) + ring.subrange(
                    0,
                    start + nb - ring.len(),
                )
            }
        },
{
    let size = ring.len() as u32;
    let start = slot(size as int, pos);
    mask_gives_slot(size, pos);
    let ranges = if start + nb <= size {
        ring.subrange(start, start + nb)
    } else {
        ring.subrange(start, size as int) + ring.subrange(0, start + nb - size)
    };
    assert forall|i: int| 0 <= i < nb implies entries_from(ring, pos, nb)[i] == ranges[i] by {
        let at = pos.wrapping_add(i as u32);
        mask_gives_slot(size, at);
        slots_past_is_distance(size, pos, at);
        slots_past_in_order(size, pos, slot(size as int, at));
        vstd::arithmetic::div_mod::lemma_small_mod(i as nat, size as nat);
    }
    assert(entries_from(ring, pos, nb) =~= ranges);
}

/// A run of entries is its first part followed by the rest.
pub proof fn entries_split<T>(ring: Seq<T>, pos: u32, a: int, b: int)
    requires
        0 <= a,
        0 <= b,
        a + b <= u32::MAX,
    ensures
        entries_from(ring, pos, a + b) == entries_from(ring, pos, a) + entries_from(
            ring,
            pos.wrapping_add(a as u32),
            b,
        ),
{
    assert(entries_from(ring, pos, a + b) =~= entries_from(ring, pos, a) + entries_from(
        ring,
        pos.wrapping_add(a as u32),
        b,
    ));
}

/// Position 0 is in the first slot, and from one position to the next
/// the slot is the next one, or the first again after the last. That
/// goes for the position after 2^32 - 1 too, which is 0.
pub proof fn slots_follow_positions(size: u32, pos: u32)
    requires
        is_ring_size(size),
    ensures
        slot(size as int, 0) == 0,
        slot(size as int, pos.wrapping_add(1)) == if slot(size as int, pos) + 1 < size {
            slot(size as int, pos) + 1
        } else {
            0
        },
{
    let next = pos.wrapping_add(1);
    mask_gives_slot(size, 0);
    mask_gives_slot(size, pos);
    mask_gives_slot(size, next);
    ring_size_bounds(size);
    slots_past_is_distance(size, pos, next);
    slots_past_in_order(size, pos, slot(size as int, next));
    vstd::arithmetic::div_mod::lemma_small_mod(0, size as nat);
    if size > 1 {
        vstd::arithmetic::div_mod::lemma_small_mod(1, size as nat);
    }
}

/// On a ring of `size` slots, the entry `i` positions after `pos` lies
/// in slot `(pos + i) % size`, whether or not the position wraps.
proof fn lemma_slot_of_sum(size: u32, pos: u32, i: int)
    requires
        is_ring_size(size),
        0 <= i <= u32::MAX,
    ensures
        slot(size as int, pos.wrapping_add(i as u32)) == (pos + i) % size as int,
        0 <= (pos + i) % (size as int) < size,
{
    let at = pos.wrapping_add(i as u32);
    mask_gives_slot(size, at);
    let turns = if pos + i > u32::MAX {
        -1int
    } else {
        0int
    };
    lemma_wrap(size, at as int, pos + i, turns);
}

/// A run of `nb` entries from position `pos` on has `nb` entries, and
/// entry `i` of it is what lies `i` slots past `pos`, counted round the
/// ring.
pub proof fn entries_lie_round_the_ring<T>(ring: Seq<T>, pos: u32, nb: int)
    requires
        ring.len() <= u32::MAX,
        is_ring_size(ring.len() as u32),
        0 <= nb <= u32::MAX,
    ensures
        entries_from(ring, pos, nb).len() == nb,
        forall|i: int|
            0 <= i < nb ==> #[trigger] entries_from(ring, pos, nb)[i] == ring[(pos + i)
                % ring.len() as int],
{
    assert forall|i: int| 0 <= i < nb implies #[trigger] entries_from(ring, pos, nb)[i] == ring[(pos
        + i) % ring.len() as int] by {
        lemma_slot_of_sum(ring.len() as u32, pos, i);
    }
}

/// Writing `src` at position `pos` puts entry `i` of it `i` slots past
/// `pos`, counted round the ring, and leaves every slot that is
/// `src.len()` or more past `pos` alone.
pub proof fn entries_are_written_round_the_ring<T>(ring: Seq<T>, pos: u32, src: Seq<T>)
    requires
        ring.len() <= u32::MAX,
        is_ring_size(ring.len() as u32),
        src.len() <= ring.len(),
    ensures
        written(ring, pos, src).len() == ring.len(),
        forall|i: int|
            0 <= i < src.len() ==> written(ring, pos, src)[(pos + i) % ring.len() as int]
                == #[trigger] src[i],
        forall|s: int|
            0 <= s < ring.len() && (s - pos) % ring.len() as int >= src.len()
                ==> #[trigger] written(ring, pos, src)[s] == ring[s],
{
    let size = ring.len() as u32;
    assert forall|i: int| 0 <= i < src.len() implies written(ring, pos, src)[(pos + i)
        % ring.len() as int] == #[trigger] src[i] by {
        let at = pos.wrapping_add(i as u32);
        lemma_slot_of_sum(size, pos, i);
        slots_past_is_distance(size, pos, at);
        vstd::arithmetic::div_mod::lemma_small_mod(i as nat, size as nat);
    }
}

} // verus!
