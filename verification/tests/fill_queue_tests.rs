use xsk_core::ring::{XskRingProd, XDP_RING_NEED_WAKEUP};
use xsk_core::socket::Fd;
use xsk_core::umem::comp_queue::copy_comp_addrs;
use xsk_core::umem::fill_queue::{copy_fill_addrs, WakeupStep};
use xsk_core::{FillQueue, Socket};

const FQ_SIZE: u32 = 4;

fn queue() -> FillQueue {
    FillQueue::new(
        XskRingProd::new(vec![0; FQ_SIZE as usize]),
        Socket { fd: Fd { id: 3 } },
    )
}

fn frame_addrs() -> Vec<u64> {
    (0..8).map(|i| i * 2048).collect()
}

#[test]
fn copy_fill_addrs_copies_across_ring_wrap() {
    let mut ring = XskRingProd {
        cached_prod: 0,
        cached_cons: 0,
        mask: 3,
        size: 4,
        producer: 0,
        consumer: 0,
        ring: vec![0; 4],
        flags: 0,
    };
    let src = [40, 50, 60];

    copy_fill_addrs(&mut ring, 3, &src);

    assert_eq!(ring.ring, [50, 60, 0, 40]);
}

#[test]
fn producing_fq_size_frames_is_ok() {
    let mut fq = queue();
    let addrs = frame_addrs();

    assert_eq!(fq.produce(&addrs[..4]), 4);
}

#[test]
fn producing_more_than_fq_size_frames_fails() {
    let mut fq = queue();
    let addrs = frame_addrs();

    assert_eq!(fq.produce(&addrs[..5]), 0);
}

#[test]
fn fill_queue_tests_produce_frames_until_full() {
    let mut fq = queue();
    let addrs = frame_addrs();

    assert_eq!(fq.produce(&addrs[..2]), 2);
    assert_eq!(fq.produce(&addrs[2..3]), 1);
    assert_eq!(fq.produce(&addrs[3..8]), 0);
    assert_eq!(fq.produce(&addrs[3..4]), 1);

    assert_eq!(fq.ring().ring[..], addrs[..4]);
    assert_eq!(fq.produce(&[]), 0);
    assert_eq!(fq.produce_one(&addrs[4]), 0);
}

#[test]
fn fill_queue_tests_produce_one_is_ok() {
    let mut fq = queue();
    let addrs = frame_addrs();

    assert_eq!(fq.produce_one(&addrs[0]), 1);
}

#[test]
fn nb_free_on_fresh_queue_is_fq_size() {
    let mut fq = queue();

    assert_eq!(fq.nb_free_exact(), FQ_SIZE);
    assert_eq!(fq.nb_free(0), FQ_SIZE);
}

#[test]
fn fill_queue_tests_nb_free_decreases_as_frames_are_produced() {
    let mut fq = queue();
    let addrs = frame_addrs();

    assert_eq!(fq.nb_free_exact(), 4);

    assert_eq!(fq.produce(&addrs[..2]), 2);

    assert_eq!(fq.nb_free_exact(), 2);

    assert_eq!(fq.produce(&addrs[2..4]), 2);

    assert_eq!(fq.nb_free_exact(), 0);
}

#[test]
fn nb_free_reflects_frames_taken_by_the_kernel() {
    let mut fq = queue();
    let addrs = frame_addrs();

    // A slot is left free, so that the cached count still answers for
    // one.
    let nb = (FQ_SIZE - 1) as usize;

    assert_eq!(fq.produce(&addrs[..nb]), nb);

    assert_eq!(fq.nb_free_exact(), 1);

    fq.kernel_consume(2);

    assert_eq!(fq.nb_free(1), 1);
    assert_eq!(fq.nb_free(2), 3);
    assert!(fq.nb_free_exact() > 1);
    assert_eq!(fq.nb_free_exact(), 3);
}

#[test]
fn the_count_of_free_slots_is_not_capped() {
    let mut fq = queue();

    assert_eq!(fq.nb_free(1), FQ_SIZE);
    assert_eq!(fq.nb_free(u32::MAX), FQ_SIZE);
}

#[test]
fn a_refused_batch_changes_nothing_on_the_ring() {
    let mut fq = queue();
    let addrs = frame_addrs();

    assert_eq!(fq.produce(&addrs[1..3]), 2);
    let before = fq.ring().ring.clone();

    assert_eq!(fq.produce(&addrs[3..6]), 0);

    assert_eq!(fq.ring().ring, before);
    assert_eq!(fq.ring().producer, 2);
    assert_eq!(fq.ring().cached_prod, 2);
    assert_eq!(fq.nb_free_exact(), 2);
}

#[test]
fn batches_go_across_the_end_of_the_ring_in_order() {
    let mut fq = queue();

    assert_eq!(fq.produce(&[1, 2, 3]), 3);
    fq.kernel_consume(3);
    assert_eq!(fq.produce(&[4, 5, 6]), 3);

    assert_eq!(fq.ring().ring, [5, 6, 3, 4]);
    assert_eq!(fq.ring().producer, 6);
    assert_eq!(fq.ring().consumer, 3);
    assert_eq!(fq.produce_one(&7), 1);
    assert_eq!(fq.ring().ring, [5, 6, 7, 4]);
    assert_eq!(fq.produce_one(&8), 0);
}

#[test]
fn one_address_is_produced_alike_either_way() {
    let mut a = queue();
    let mut b = queue();

    for addr in [10, 20, 30, 40, 50] {
        assert_eq!(a.produce(&[addr]), b.produce_one(&addr));
        assert_eq!(a.ring().ring, b.ring().ring);
        assert_eq!(a.ring().producer, b.ring().producer);
        assert_eq!(a.ring().cached_cons, b.ring().cached_cons);
    }
}

#[test]
fn addresses_copied_in_are_copied_out() {
    for idx in [0, 1, 3, 4, u32::MAX - 1, u32::MAX] {
        let mut ring = XskRingProd::new(vec![0; 4]);
        copy_fill_addrs(&mut ring, idx, &[1, 2, 3]);

        let back = xsk_core::ring::XskRingCons::new(ring.ring);
        let mut copied = [0; 3];
        copy_comp_addrs(&back, idx, &mut copied);

        assert_eq!(copied, [1, 2, 3]);
    }
}

#[test]
fn the_kernel_is_woken_up_only_if_it_asks_for_it() {
    let mut fq = queue();
    let addrs = frame_addrs();

    assert!(!fq.needs_wakeup());
    assert_eq!(fq.produce_and_wakeup(&addrs[..1]), WakeupStep::Done(1));
    assert_eq!(fq.produce_one_and_wakeup(&addrs[1]), WakeupStep::Done(1));

    fq.kernel_set_flags(XDP_RING_NEED_WAKEUP);

    assert!(fq.needs_wakeup());
    assert_eq!(fq.produce_and_wakeup(&[]), WakeupStep::Done(0));
    assert_eq!(fq.produce_and_wakeup(&addrs[..3]), WakeupStep::Done(0));
    assert_eq!(fq.produce_and_wakeup(&addrs[2..3]), WakeupStep::Wakeup(1));
    assert_eq!(fq.produce_one_and_wakeup(&addrs[3]), WakeupStep::Wakeup(1));
    assert_eq!(fq.produce_one_and_wakeup(&addrs[4]), WakeupStep::Done(0));

    fq.kernel_set_flags(2);
    assert!(!fq.needs_wakeup());
    fq.kernel_set_flags(3);
    assert!(fq.needs_wakeup());
    assert_eq!(fq.wakeup_step(0), WakeupStep::Done(0));
    assert_eq!(fq.wakeup_step(2), WakeupStep::Wakeup(2));
}

#[test]
fn the_outcome_of_waking_up_decides_what_is_returned() {
    let fq = queue();

    assert_eq!(fq.wakeup::<&str>(Ok(true)), Ok(()));
    assert_eq!(fq.wakeup::<&str>(Ok(false)), Ok(()));
    assert_eq!(fq.wakeup(Err("poll")), Err("poll"));

    assert_eq!(WakeupStep::Wakeup(2).finish::<&str>(Ok(())), Ok(2));
    assert_eq!(WakeupStep::Wakeup(2).finish(Err("poll")), Err("poll"));
    assert_eq!(WakeupStep::Done(3).finish::<&str>(Ok(())), Ok(3));
}

#[test]
fn the_kernel_takes_what_was_produced_in_order() {
    let mut fq = queue();

    assert_eq!(fq.produce(&[11, 12, 13]), 3);

    let mut taken = Vec::new();
    for _ in 0..3 {
        let slot = fq.ring().consumer & fq.ring().mask;
        taken.push(fq.ring().ring[slot as usize]);
        fq.kernel_consume(1);
    }

    assert_eq!(taken, [11, 12, 13]);
    assert_eq!(fq.nb_free_exact(), FQ_SIZE);
}
