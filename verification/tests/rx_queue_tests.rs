use xsk_core::ring::XskRingCons;
use xsk_core::socket::rx_queue::copy_rx_descs;
use xsk_core::socket::Fd;
use xsk_core::umem::frame::XdpDesc;
use xsk_core::{FrameDesc, RxQueue, Socket};

fn xdp_desc(n: u32) -> XdpDesc {
    XdpDesc {
        addr: u64::from(n),
        len: n + 1,
        options: n + 2,
    }
}

fn queue(size: usize) -> RxQueue {
    RxQueue::new(
        XskRingCons::new(vec![xdp_desc(0); size]),
        Socket { fd: Fd { id: 3 } },
    )
}

#[test]
fn copy_rx_descs_copies_across_ring_wrap() {
    let ring = XskRingCons {
        cached_prod: 0,
        cached_cons: 0,
        mask: 3,
        size: 4,
        producer: 0,
        consumer: 0,
        ring: vec![
            XdpDesc {
                addr: 10,
                len: 11,
                options: 12,
            },
            XdpDesc {
                addr: 20,
                len: 21,
                options: 22,
            },
            XdpDesc {
                addr: 30,
                len: 31,
                options: 32,
            },
            XdpDesc {
                addr: 40,
                len: 41,
                options: 42,
            },
        ],
        flags: 0,
    };
    let mut copied = [FrameDesc::default(); 3];

    copy_rx_descs(&ring, 3, &mut copied);

    assert_eq!(copied[0].addr(), 40);
    assert_eq!(copied[0].length(), 41);
    assert_eq!(copied[0].options(), 42);
    assert_eq!(copied[1].addr(), 10);
    assert_eq!(copied[1].length(), 11);
    assert_eq!(copied[1].options(), 12);
    assert_eq!(copied[2].addr(), 20);
    assert_eq!(copied[2].length(), 21);
    assert_eq!(copied[2].options(), 22);
}

#[test]
fn consume_updates_descriptors_in_order_and_leaves_the_rest() {
    let mut rx = queue(4);
    let mut descs = [FrameDesc::new(900); 3];

    assert_eq!(rx.consume(&mut descs), 0);
    assert_eq!(descs[0].addr(), 900);

    rx.kernel_produce(&[xdp_desc(10), xdp_desc(20)]);

    assert_eq!(rx.consume(&mut []), 0);
    assert_eq!(rx.consume(&mut descs), 2);
    assert_eq!(descs[0].addr(), 10);
    assert_eq!(descs[0].length(), 11);
    assert_eq!(descs[0].options(), 12);
    assert_eq!(descs[1].addr(), 20);
    assert_eq!(descs[2].addr(), 900);
    assert_eq!(rx.consume(&mut descs), 0);
}

#[test]
fn consume_goes_across_the_end_of_the_ring() {
    let mut rx = queue(4);
    let mut one = FrameDesc::default();

    rx.kernel_produce(&[xdp_desc(1), xdp_desc(2), xdp_desc(3)]);
    for n in 1..4 {
        assert_eq!(rx.consume_one(&mut one), 1);
        assert_eq!(one.addr(), n);
    }
    assert_eq!(rx.consume_one(&mut one), 0);
    assert_eq!(one.addr(), 3);

    rx.kernel_produce(&[xdp_desc(4), xdp_desc(5), xdp_desc(6), xdp_desc(7)]);

    let mut descs = [FrameDesc::default(); 4];
    assert_eq!(rx.consume(&mut descs), 4);
    let addrs: Vec<u64> = descs.iter().map(FrameDesc::addr).collect();
    assert_eq!(addrs, vec![4, 5, 6, 7]);
    assert_eq!(rx.ring().consumer, 7);
}

#[test]
fn one_descriptor_is_consumed_alike_either_way() {
    let mut a = queue(2);
    let mut b = queue(2);
    a.kernel_produce(&[xdp_desc(5), xdp_desc(6)]);
    b.kernel_produce(&[xdp_desc(5), xdp_desc(6)]);

    let mut batch = [FrameDesc::default()];
    let mut one = FrameDesc::default();

    assert_eq!(a.consume(&mut batch), b.consume_one(&mut one));
    assert_eq!(batch[0].addr(), one.addr());
    assert_eq!(a.ring().cached_prod, b.ring().cached_prod);
    assert_eq!(a.ring().cached_cons, b.ring().cached_cons);
    assert_eq!(a.ring().consumer, b.ring().consumer);
}

#[test]
fn polling_decides_whether_anything_is_consumed() {
    let mut rx = queue(4);
    let mut descs = [FrameDesc::default(); 2];
    rx.kernel_produce(&[xdp_desc(10), xdp_desc(20), xdp_desc(30)]);

    assert_eq!(rx.poll_and_consume(&mut descs, Err("poll")), Err("poll"));
    assert_eq!(rx.poll_and_consume::<&str>(&mut descs, Ok(false)), Ok(0));
    assert_eq!(descs[0].addr(), 0);
    assert_eq!(rx.nb_avail_exact(), 3);
    assert_eq!(rx.poll_and_consume::<&str>(&mut descs, Ok(true)), Ok(2));
    assert_eq!(descs[1].addr(), 20);

    let mut one = FrameDesc::default();
    assert_eq!(rx.poll_and_consume_one(&mut one, Err("poll")), Err("poll"));
    assert_eq!(rx.poll_and_consume_one::<&str>(&mut one, Ok(false)), Ok(0));
    assert_eq!(one.addr(), 0);
    assert_eq!(rx.poll_and_consume_one::<&str>(&mut one, Ok(true)), Ok(1));
    assert_eq!(one.addr(), 30);
    assert_eq!(rx.poll_and_consume_one::<&str>(&mut one, Ok(true)), Ok(0));
}

#[test]
fn counts_are_capped_or_exact() {
    let mut rx = queue(4);

    rx.kernel_produce(&[xdp_desc(1), xdp_desc(2)]);
    assert_eq!(rx.nb_avail(1), 1);
    assert_eq!(rx.nb_avail(4), 2);

    rx.kernel_produce(&[xdp_desc(3)]);
    assert_eq!(rx.nb_avail(4), 2);
    assert_eq!(rx.nb_avail_exact(), 3);
    assert_eq!(rx.nb_avail(4), 3);

    let mut descs = [FrameDesc::default(); 4];
    assert_eq!(rx.consume(&mut descs), 3);
}

#[test]
fn the_file_descriptor_is_the_sockets() {
    let mut rx = queue(1);

    assert_eq!(*rx.fd(), Fd { id: 3 });
    rx.fd_mut().id = 4;
    assert_eq!(rx.fd().id, 4);
}
