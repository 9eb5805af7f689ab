use xsk_core::ring::XskRingCons;
use xsk_core::socket::Fd;
use xsk_core::umem::comp_queue::copy_comp_addrs;
use xsk_core::{CompQueue, Socket};

fn queue(size: usize) -> CompQueue {
    CompQueue::new(XskRingCons::new(vec![0; size]), Socket { fd: Fd { id: 3 } })
}

#[test]
fn copy_comp_addrs_copies_across_ring_wrap() {
    let ring = XskRingCons {
        cached_prod: 0,
        cached_cons: 0,
        mask: 3,
        size: 4,
        producer: 0,
        consumer: 0,
        ring: vec![10, 20, 30, 40],
        flags: 0,
    };
    let mut copied = [0; 3];

    copy_comp_addrs(&ring, 3, &mut copied);

    assert_eq!(copied, [40, 10, 20]);
}

#[test]
fn consume_updates_addresses_in_order_and_leaves_the_rest() {
    let mut cq = queue(4);
    let mut addrs = [7u64; 4];

    assert_eq!(cq.consume(&mut addrs), 0);
    assert_eq!(addrs, [7; 4]);

    cq.kernel_produce(&[100, 200, 300]);

    assert_eq!(cq.consume(&mut []), 0);
    assert_eq!(cq.consume(&mut addrs[..2]), 2);
    assert_eq!(addrs, [100, 200, 7, 7]);
    assert_eq!(cq.consume(&mut addrs), 1);
    assert_eq!(addrs, [300, 200, 7, 7]);
    assert_eq!(cq.consume(&mut addrs), 0);
}

#[test]
fn what_the_kernel_completes_is_consumed_in_order() {
    let mut cq = queue(4);
    let mut next = 0u64;
    let mut seen = Vec::new();

    for round in 0..20usize {
        let nb = round % 5;
        let batch: Vec<u64> = (0..nb as u64).map(|i| next + i).collect();
        next += nb as u64;
        cq.kernel_produce(&batch);

        let mut addrs = [u64::MAX; 4];
        let cnt = cq.consume(&mut addrs);
        assert_eq!(cnt, nb);
        seen.extend_from_slice(&addrs[..cnt]);
    }

    assert_eq!(seen, (0..next).collect::<Vec<u64>>());
}

#[test]
fn consume_stops_at_what_the_cache_knows_of() {
    let mut cq = queue(8);
    let mut addrs = [0u64; 8];

    cq.kernel_produce(&[1, 2, 3]);
    assert_eq!(cq.nb_avail(8), 3);
    cq.kernel_produce(&[4, 5]);

    assert_eq!(cq.consume(&mut addrs), 3);
    assert_eq!(cq.consume(&mut addrs), 2);
    assert_eq!(addrs[..3], [4, 5, 3]);
}

#[test]
fn one_address_is_consumed_alike_either_way() {
    let mut a = queue(2);
    let mut b = queue(2);
    a.kernel_produce(&[5, 6]);
    b.kernel_produce(&[5, 6]);

    let mut batch = [0];
    let mut one = 0;

    assert_eq!(a.consume(&mut batch), 1);
    assert_eq!(b.consume_one(&mut one), 1);
    assert_eq!(batch[0], 5);
    assert_eq!(one, 5);
    assert_eq!(a.ring().cached_prod, b.ring().cached_prod);
    assert_eq!(a.ring().cached_cons, b.ring().cached_cons);
    assert_eq!(a.ring().consumer, b.ring().consumer);

    assert_eq!(b.consume_one(&mut one), 1);
    assert_eq!(one, 6);
    assert_eq!(b.consume_one(&mut one), 0);
    assert_eq!(one, 6);
}

#[test]
fn watching_a_backlog_does_not_consume_it() {
    let mut cq = queue(4);

    cq.kernel_produce(&[1]);
    assert_eq!(cq.nb_avail(4), 1);
    cq.kernel_produce(&[2, 3]);
    assert_eq!(cq.nb_avail(4), 1);
    assert_eq!(cq.nb_avail_exact(), 3);
    assert_eq!(cq.nb_avail_exact(), 3);

    let mut addrs = [0; 4];
    assert_eq!(cq.consume(&mut addrs), 3);
    assert_eq!(addrs, [1, 2, 3, 0]);
    assert_eq!(cq.nb_avail_exact(), 0);
}
