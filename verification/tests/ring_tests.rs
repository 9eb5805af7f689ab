use xsk_core::ring::{cons_nb_avail_exact, prod_nb_free_exact, XskRingCons, XskRingProd};

const SIZE: u32 = 4;

fn fake_cons(size: u32) -> XskRingCons<u64> {
    XskRingCons::new(vec![0; size as usize])
}

fn fake_prod(size: u32) -> XskRingProd<u64> {
    XskRingProd::new(vec![0; size as usize])
}

#[test]
fn cons_nb_avail_exact_is_zero_on_an_empty_ring() {
    let mut cons = fake_cons(SIZE);

    assert_eq!(cons_nb_avail_exact(&mut cons), 0);
    assert_eq!(cons_nb_avail_exact(&mut cons), 0);
}

#[test]
fn cons_nb_avail_exact_sees_late_arrivals() {
    let mut cons = fake_cons(SIZE);

    cons.kernel_produce(&[0; 1]);

    assert_eq!(cons_nb_avail_exact(&mut cons), 1);

    cons.kernel_produce(&[0; 2]);

    assert_eq!(cons_nb_avail_exact(&mut cons), 3);
}

#[test]
fn cons_nb_avail_exact_is_idempotent() {
    let mut cons = fake_cons(SIZE);

    cons.kernel_produce(&[0; 2]);

    for _ in 0..3 {
        assert_eq!(cons_nb_avail_exact(&mut cons), 2);
    }
}

#[test]
fn cons_nb_avail_exact_restores_the_ring_positions() {
    let mut cons = fake_cons(SIZE);

    cons.kernel_produce(&[0; 2]);

    let cached_cons = cons.cached_cons;
    let consumer = cons.consumer;

    assert_eq!(cons_nb_avail_exact(&mut cons), 2);

    assert_eq!(cons.cached_cons, cached_cons);
    assert_eq!(cons.consumer, consumer);
}

#[test]
fn cons_nb_avail_exact_after_a_partial_consume() {
    let mut cons = fake_cons(SIZE);

    cons.kernel_produce(&[0; 3]);

    let mut idx = 0;

    assert_eq!(cons.peek(1, &mut idx), 1);

    cons.release(1);

    assert_eq!(cons_nb_avail_exact(&mut cons), 2);
}

#[test]
fn cons_nb_avail_exact_reports_a_full_ring() {
    let mut cons = fake_cons(SIZE);

    cons.kernel_produce(&[0; SIZE as usize]);

    assert_eq!(cons_nb_avail_exact(&mut cons), SIZE);
}

#[test]
fn cons_nb_avail_exact_leaves_every_entry_for_a_later_peek() {
    let mut cons = fake_cons(SIZE);

    cons.kernel_produce(&[0; 3]);

    assert_eq!(cons_nb_avail_exact(&mut cons), 3);

    let mut idx = 0;

    assert_eq!(cons.peek(3, &mut idx), 3);
    assert_eq!(idx, 0);
}

#[test]
fn prod_nb_free_exact_is_the_ring_size_on_an_empty_ring() {
    let mut prod = fake_prod(SIZE);

    assert_eq!(prod_nb_free_exact(&mut prod), SIZE);
}

#[test]
fn prod_nb_free_exact_is_zero_on_a_full_ring() {
    let mut prod = fake_prod(SIZE);

    let mut idx = 0;

    assert_eq!(prod.reserve(SIZE, &mut idx), SIZE);

    prod.submit(SIZE);

    assert_eq!(prod_nb_free_exact(&mut prod), 0);
}

#[test]
fn prod_nb_free_exact_tracks_reservations() {
    let mut prod = fake_prod(SIZE);

    let mut idx = 0;

    assert_eq!(prod.reserve(2, &mut idx), 2);

    assert_eq!(prod_nb_free_exact(&mut prod), 2);
}

#[test]
fn prod_nb_free_exact_sees_entries_taken_by_the_kernel() {
    let mut prod = fake_prod(SIZE);

    let mut idx = 0;

    assert_eq!(prod.reserve(2, &mut idx), 2);

    prod.submit(2);

    prod.kernel_consume(2);

    assert_eq!(prod_nb_free_exact(&mut prod), SIZE);
}

#[test]
fn prod_nb_free_exact_leaves_the_cached_producer_position_alone() {
    let mut prod = fake_prod(SIZE);

    let mut idx = 0;

    assert_eq!(prod.reserve(2, &mut idx), 2);

    prod.submit(2);

    let cached_prod = prod.cached_prod;

    assert_eq!(prod_nb_free_exact(&mut prod), 2);
    assert_eq!(prod.cached_prod, cached_prod);

    assert_eq!(prod.reserve(2, &mut idx), 2);
}

#[test]
fn a_default_ring_has_no_memory() {
    let cons: XskRingCons<u64> = XskRingCons::default();
    let prod: XskRingProd<u64> = XskRingProd::default();

    assert!(cons.is_ring_null());
    assert!(prod.is_ring_null());
    assert!(!cons.is_consistent());
    assert!(!prod.is_consistent());
    assert_eq!(cons.size, 0);
    assert_eq!(prod.size, 0);

    assert!(!fake_cons(SIZE).is_ring_null());
    assert!(!fake_prod(SIZE).is_ring_null());
}

#[test]
fn positions_out_of_order_are_not_consistent() {
    let mut prod = fake_prod(SIZE);
    assert!(prod.is_consistent());
    prod.consumer = 1;
    assert!(!prod.is_consistent());

    let mut cons = fake_cons(SIZE);
    assert!(cons.is_consistent());
    cons.producer = SIZE + 1;
    assert!(!cons.is_consistent());

    let mut odd = fake_cons(SIZE);
    odd.mask = 2;
    assert!(!odd.is_consistent());

    let mut short = fake_prod(SIZE);
    short.ring = vec![0; 3];
    assert!(!short.is_consistent());

    let mut not_a_power = fake_prod(SIZE);
    not_a_power.ring = vec![0; 6];
    not_a_power.size = 6;
    not_a_power.mask = 5;
    not_a_power.cached_cons = 6;
    assert!(!not_a_power.is_consistent());
}

#[test]
fn reserve_is_all_or_nothing() {
    let mut prod = fake_prod(SIZE);
    let mut idx = 77;

    assert_eq!(prod.reserve(SIZE + 1, &mut idx), 0);
    assert_eq!(idx, 77);

    assert_eq!(prod.reserve(3, &mut idx), 3);
    assert_eq!(idx, 0);

    assert_eq!(prod.reserve(2, &mut idx), 0);
    assert_eq!(prod.reserve(1, &mut idx), 1);
    assert_eq!(idx, 3);
    assert_eq!(prod.reserve(0, &mut idx), 0);
}

#[test]
fn nb_free_answers_from_the_cache_while_it_holds_enough() {
    let mut prod = fake_prod(SIZE);
    let mut idx = 0;

    assert_eq!(prod.reserve(2, &mut idx), 2);
    prod.submit(2);
    prod.kernel_consume(2);

    assert_eq!(prod.nb_free(1), 2);
    assert_eq!(prod.nb_free(2), 2);
    assert_eq!(prod.nb_free(3), SIZE);
    assert_eq!(prod.nb_free(1), SIZE);
}

#[test]
fn nb_avail_does_not_refresh_a_cache_that_is_not_empty() {
    let mut cons = fake_cons(SIZE);

    cons.kernel_produce(&[1]);
    assert_eq!(cons.nb_avail(SIZE), 1);

    cons.kernel_produce(&[2, 3]);
    assert_eq!(cons.nb_avail(SIZE), 1);
    assert_eq!(cons.nb_avail(0), 0);
    assert_eq!(cons_nb_avail_exact(&mut cons), 3);
    assert_eq!(cons.nb_avail(2), 2);
    assert_eq!(cons.nb_avail(SIZE), 3);
}

#[test]
fn cancel_gives_back_what_a_peek_took() {
    let mut cons = fake_cons(SIZE);
    let mut idx = 9;

    assert_eq!(cons.peek(1, &mut idx), 0);
    assert_eq!(idx, 9);

    cons.kernel_produce(&[5, 6, 7]);

    assert_eq!(cons.peek(2, &mut idx), 2);
    assert_eq!(idx, 0);
    cons.cancel(1);

    assert_eq!(cons.peek(2, &mut idx), 2);
    assert_eq!(idx, 1);
    assert_eq!(cons.entry(1), 6);
    assert_eq!(cons.entry(2), 7);
}

#[test]
fn a_peek_an_arrival_and_another_peek_count_every_entry() {
    let mut cons = fake_cons(SIZE);
    let mut idx = 0;

    cons.kernel_produce(&[1, 2]);
    let first = cons.peek(SIZE, &mut idx);
    cons.kernel_produce(&[3]);
    let second = cons.peek(SIZE, &mut idx);

    assert_eq!(first + second, 3);
    cons.cancel(first + second);
    assert_eq!(cons.cached_cons, 0);
    assert_eq!(cons.nb_avail(SIZE), 3);
}

#[test]
fn positions_wrap_at_the_end_of_their_range() {
    let mut cons = XskRingCons {
        cached_prod: u32::MAX,
        cached_cons: u32::MAX,
        mask: SIZE - 1,
        size: SIZE,
        producer: u32::MAX,
        consumer: u32::MAX,
        ring: vec![0u64; SIZE as usize],
        flags: 0,
    };
    assert!(cons.is_consistent());

    cons.kernel_produce(&[8, 9, 10]);

    assert_eq!(cons.producer, 2);
    assert_eq!(cons.ring, vec![9, 10, 0, 8]);
    assert_eq!(cons_nb_avail_exact(&mut cons), 3);

    let mut prod = XskRingProd {
        cached_prod: u32::MAX - 1,
        cached_cons: (u32::MAX - 1).wrapping_add(SIZE),
        mask: SIZE - 1,
        size: SIZE,
        producer: u32::MAX - 1,
        consumer: u32::MAX - 1,
        ring: vec![0u64; SIZE as usize],
        flags: 0,
    };
    let mut idx = 0;
    assert!(prod.is_consistent());
    assert_eq!(prod.reserve(SIZE, &mut idx), SIZE);
    assert_eq!(idx, u32::MAX - 1);
    prod.write(idx, 4);
    assert_eq!(prod.ring, vec![0, 0, 4, 0]);
    prod.submit(SIZE);
    assert_eq!(prod.producer, 2);
    prod.kernel_consume(3);
    assert_eq!(prod_nb_free_exact(&mut prod), 3);
}

#[test]
fn counts_foretell_what_can_be_taken() {
    let mut prod = fake_prod(SIZE);
    let mut idx = 0;

    for nb in [1, 2, 3, 1] {
        let can = prod.nb_free(nb) >= nb;
        assert_eq!(prod.reserve(nb, &mut idx) == nb, can);
    }
    assert_eq!(prod_nb_free_exact(&mut prod), 0);

    let mut cons = fake_cons(SIZE);
    cons.kernel_produce(&[1, 2, 3]);
    for nb in [2, 2, 1] {
        let n = cons.nb_avail(nb);
        assert_eq!(cons.peek(nb, &mut idx), n);
    }
    assert_eq!(cons.nb_avail(1), 0);
}

#[test]
fn free_and_pending_slots_make_up_the_ring() {
    let mut prod = fake_prod(SIZE);
    let mut idx = 0;

    for (put, taken) in [(1, 0), (3, 2), (1, 1), (2, 4)] {
        assert_eq!(prod.reserve(put, &mut idx), put);
        prod.submit(put);
        prod.kernel_consume(taken);

        let pending = prod.producer.wrapping_sub(prod.consumer);
        let cached = prod.nb_free(0);
        assert!(cached <= SIZE - pending);
        assert_eq!(prod_nb_free_exact(&mut prod) + pending, SIZE);
    }
}

#[test]
fn a_peek_finds_something_exactly_if_there_is_something() {
    let mut cons = fake_cons(2);
    let mut idx = 0;

    for n in 0..10u64 {
        assert_eq!(cons.peek(1, &mut idx), 0);
        cons.kernel_produce(&[n]);
        assert_eq!(cons.peek(1, &mut idx), 1);
        assert_eq!(cons.entry(idx), n);
        cons.release(1);
    }
}

#[test]
fn a_ring_full_of_positions_has_a_slot_each() {
    for first in [0, 1, 5, u32::MAX - 2] {
        let mut prod = fake_prod(8);

        for i in 0..8 {
            prod.write(first.wrapping_add(i), 100 + u64::from(i));
        }

        let mut seen = prod.ring.clone();
        seen.sort();
        assert_eq!(seen, (100..108).collect::<Vec<u64>>());
        assert_eq!(prod.ring[(first % 8) as usize], 100);
    }
}
