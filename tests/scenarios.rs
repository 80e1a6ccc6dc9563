use virtio_net::device::{EpollConfig, MacAddr, Net, BASE_FEATURES, MAC_FEATURE};
use virtio_net::eventfd::{EventFd, EVENTFD_MAX};
use virtio_net::handler::{
    NetEpollHandler, RxDelivery, MAX_BUFFER_SIZE, RX_QUEUE_EVENT, RX_RATE_LIMITER_EVENT,
    RX_TAP_EVENT, TX_QUEUE_EVENT, VIRTIO_MMIO_INT_VRING, VNET_HDR_LEN,
};
use virtio_net::limiter::{RateLimiter, TokenBucket, TokenType};
use virtio_net::memory::{GuestMemory, MemoryError};
use virtio_net::mmds::MmdsNetworkStack;
use virtio_net::queue::{Descriptor, Queue};
use virtio_net::tap::{copy_range, Tap, TapRead, EAGAIN};

fn handler(mmds: bool) -> NetEpollHandler {
    let mut n = Net::new_with_tap(Tap::new(), None, EpollConfig::new(0, -1), None, None, mmds);
    let queues = vec![Queue::new(16), Queue::new(16)];
    let evts = vec![EventFd::new(), EventFd::new()];
    match n.activate(GuestMemory::new(0x10000), EventFd::new(), queues, evts) {
        Ok(h) => h,
        Err(_) => panic!("activation failed"),
    }
}

fn numbered_frame(len: usize) -> Vec<u8> {
    (0..len).map(|i| (i % 251) as u8).collect()
}

fn arp_request(tpa: [u8; 4]) -> Vec<u8> {
    let mut f = vec![0u8; VNET_HDR_LEN];
    f.extend_from_slice(&[0x22; 6]);
    f.extend_from_slice(&[0x11; 6]);
    f.extend_from_slice(&[0x08, 0x06, 0, 1, 0x08, 0, 6, 4, 0, 1]);
    f.extend_from_slice(&[0x11; 6]);
    f.extend_from_slice(&[10, 1, 2, 3]);
    f.extend_from_slice(&[0x22; 6]);
    f.extend_from_slice(&tpa);
    f
}

fn write_guest(h: &mut NetEpollHandler, addr: usize, bytes: &[u8]) {
    for (i, b) in bytes.iter().enumerate() {
        h.mem.bytes[addr + i] = *b;
    }
}

#[test]
fn tx_happy_path() {
    let mut h = handler(false);
    let frame = numbered_frame(0x1000);
    write_guest(&mut h, 0x2000, &frame);
    assert!(h.tx.queue.push_avail(0, vec![Descriptor { addr: 0x2000, len: 0x1000, write_only: false }]));
    h.tx.queue_evt.write(1).unwrap();
    h.handle_event(TX_QUEUE_EVENT);
    assert_eq!(h.tap.outgoing.len(), 1);
    assert_eq!(h.tap.outgoing[0].len(), 4096);
    assert_eq!(h.tap.outgoing[0], frame);
    assert_eq!(h.tx.queue.used.len(), 1);
    assert_eq!(h.tx.queue.used[0].id, 0);
    assert_eq!(h.tx.queue.used[0].len, 0);
    assert_eq!(h.interrupt_evt.count, 0);
    assert_eq!(h.metrics.tx_packets_count, 1);
    assert_eq!(h.metrics.tx_bytes_count, 4096);
}

#[test]
fn rx_happy_path() {
    let mut h = handler(false);
    assert!(h.rx.queue.push_avail(0, vec![Descriptor { addr: 0x2000, len: 0x1000, write_only: true }]));
    let frame = numbered_frame(1234);
    h.tap.push_frame(frame.clone());
    h.handle_event(RX_TAP_EVENT);
    assert_eq!(&h.mem.bytes[0x2000..0x2000 + 1234], &frame[..]);
    assert_eq!(h.rx.queue.used.len(), 1);
    assert_eq!(h.rx.queue.used[0].len, 1234);
    assert_eq!(h.interrupt_evt.count, 1);
    assert_eq!(h.interrupt_status & VIRTIO_MMIO_INT_VRING, VIRTIO_MMIO_INT_VRING);
    assert_eq!(h.metrics.rx_bytes_count, 1234);
    assert_eq!(h.metrics.rx_packets_count, 1);
    assert!(!h.rx.deferred_frame);
}

#[test]
fn rx_deferral_until_buffer_posted() {
    let mut h = handler(false);
    h.tap.push_frame(numbered_frame(1234));
    h.handle_event(RX_TAP_EVENT);
    assert!(h.rx.deferred_frame);
    assert_eq!(h.rx.queue.used.len(), 0);
    assert_eq!(h.interrupt_evt.count, 0);

    assert!(h.rx.queue.push_avail(0, vec![Descriptor { addr: 0x2000, len: 0x1000, write_only: true }]));
    h.rx.queue_evt.write(1).unwrap();
    h.handle_event(RX_QUEUE_EVENT);
    assert!(!h.rx.deferred_frame);
    assert_eq!(h.rx.queue.used.len(), 1);
    assert_eq!(h.rx.queue.used[0].len, 1234);
    assert_eq!(h.interrupt_evt.count, 1);
}

#[test]
fn rx_tap_event_does_not_read_while_deferred() {
    let mut h = handler(false);
    h.tap.push_frame(numbered_frame(100));
    h.tap.push_frame(numbered_frame(200));
    h.handle_event(RX_TAP_EVENT);
    assert!(h.rx.deferred_frame);
    assert_eq!(h.tap.incoming.len(), 1);
    h.handle_event(RX_TAP_EVENT);
    assert!(h.rx.deferred_frame);
    assert_eq!(h.tap.incoming.len(), 1);
    assert_eq!(h.rx.bytes_read, 100);
}

#[test]
fn mmds_detour_round_trip() {
    let mut h = handler(true);
    assert!(h.rx.queue.push_avail(0, vec![Descriptor { addr: 0x4000, len: 0x1000, write_only: true }]));
    let request = arp_request([169, 254, 169, 254]);
    write_guest(&mut h, 0x2000, &request);
    assert!(h.tx.queue.push_avail(0, vec![Descriptor { addr: 0x2000, len: request.len() as u32, write_only: false }]));
    h.tx.queue_evt.write(1).unwrap();
    h.handle_event(TX_QUEUE_EVENT);

    assert_eq!(h.tap.outgoing.len(), 0);
    assert_eq!(h.metrics.mmds_rx_accepted, 1);
    assert_eq!(h.metrics.mmds_tx_frames, 1);
    assert_eq!(h.tx.queue.used.len(), 1);
    // The ARP reply went to the guest behind a zeroed header.
    assert_eq!(h.rx.queue.used.len(), 1);
    let len = h.rx.queue.used[0].len as usize;
    assert_eq!(len, VNET_HDR_LEN + 42);
    let reply = &h.mem.bytes[0x4000..0x4000 + len];
    assert_eq!(&reply[..VNET_HDR_LEN], &[0u8; 12]);
    let eth = &reply[VNET_HDR_LEN..];
    assert_eq!(&eth[0..6], &[0x11; 6]);
    assert_eq!(&eth[6..12], &[6, 1, 0x23, 0x45, 0x67, 1]);
    assert_eq!(&eth[12..14], &[0x08, 0x06]);
    assert_eq!(&eth[20..22], &[0, 2]);
    assert_eq!(&eth[28..32], &[169, 254, 169, 254]);
    assert_eq!(&eth[32..38], &[0x11; 6]);
    assert_eq!(&eth[38..42], &[10, 1, 2, 3]);
    assert_eq!(h.interrupt_evt.count, 1);
}

#[test]
fn mmds_frames_are_not_charged() {
    let mut h = handler(true);
    let request = arp_request([169, 254, 169, 254]);
    write_guest(&mut h, 0x2000, &request);
    h.tx.rate_limiter = RateLimiter::new(Some(1000), Some(5));
    assert!(h.tx.queue.push_avail(0, vec![Descriptor { addr: 0x2000, len: request.len() as u32, write_only: false }]));
    h.process_tx();
    assert_eq!(h.tx.rate_limiter.bytes, Some(TokenBucket { size: 1000, budget: 1000 }));
    assert_eq!(h.tx.rate_limiter.ops, Some(TokenBucket { size: 5, budget: 5 }));
}

#[test]
fn frame_for_other_address_goes_to_tap() {
    let mut h = handler(true);
    let request = arp_request([10, 0, 0, 1]);
    write_guest(&mut h, 0x2000, &request);
    assert!(h.tx.queue.push_avail(0, vec![Descriptor { addr: 0x2000, len: request.len() as u32, write_only: false }]));
    h.process_tx();
    assert_eq!(h.tap.outgoing.len(), 1);
    assert_eq!(h.tap.outgoing[0], request);
    assert_eq!(h.metrics.mmds_rx_accepted, 0);
}

#[test]
fn mmds_takes_ipv4_to_its_address() {
    let mut ns = MmdsNetworkStack::new_with_defaults();
    let mut f = vec![0u8; 34];
    f[12] = 0x08;
    f[13] = 0x00;
    f[30..34].copy_from_slice(&[169, 254, 169, 254]);
    assert!(ns.detour_frame(&f, 0, 34));
    assert_eq!(ns.received.len(), 1);
    assert_eq!(ns.pending.len(), 0);
    f[33] = 253;
    assert!(!ns.detour_frame(&f, 0, 34));
    assert!(!ns.detour_frame(&f, 0, 33));
}

#[test]
fn rx_read_only_descriptor_drops_frame() {
    let mut h = handler(false);
    assert!(h.rx.queue.push_avail(3, vec![Descriptor { addr: 0x2000, len: 0x1000, write_only: false }]));
    h.tap.push_frame(numbered_frame(1234));
    h.handle_event(RX_TAP_EVENT);
    assert_eq!(h.metrics.rx_fails, 1);
    assert_eq!(h.rx.queue.used.len(), 1);
    assert_eq!(h.rx.queue.used[0].id, 3);
    assert_eq!(h.rx.queue.used[0].len, 0);
    assert_eq!(h.interrupt_evt.count, 1);
    assert!(!h.rx.deferred_frame);
    assert_eq!(h.metrics.rx_packets_count, 0);
}

#[test]
fn rx_short_chain_drops_frame_with_partial_length() {
    let mut h = handler(false);
    assert!(h.rx.queue.push_avail(0, vec![
        Descriptor { addr: 0x2000, len: 100, write_only: true },
        Descriptor { addr: 0x3000, len: 200, write_only: true },
    ]));
    h.tap.push_frame(numbered_frame(1234));
    h.handle_event(RX_TAP_EVENT);
    assert_eq!(h.metrics.rx_fails, 1);
    assert_eq!(h.rx.queue.used.len(), 1);
    assert_eq!(h.rx.queue.used[0].len, 300);
    assert_eq!(h.interrupt_evt.count, 1);
    let frame = numbered_frame(1234);
    assert_eq!(&h.mem.bytes[0x2000..0x2000 + 100], &frame[..100]);
    assert_eq!(&h.mem.bytes[0x3000..0x3000 + 200], &frame[100..300]);
}

#[test]
fn rx_frame_spans_descriptors() {
    let mut h = handler(false);
    assert!(h.rx.queue.push_avail(0, vec![
        Descriptor { addr: 0x2000, len: 1000, write_only: true },
        Descriptor { addr: 0x3000, len: 1000, write_only: true },
    ]));
    h.tap.push_frame(numbered_frame(1500));
    h.handle_event(RX_TAP_EVENT);
    assert_eq!(h.rx.queue.used[0].len, 1500);
    let frame = numbered_frame(1500);
    assert_eq!(&h.mem.bytes[0x2000..0x2000 + 1000], &frame[..1000]);
    assert_eq!(&h.mem.bytes[0x3000..0x3000 + 500], &frame[1000..]);
    assert_eq!(h.metrics.rx_fails, 0);
}

#[test]
fn tx_chain_truncated_at_write_only_descriptor() {
    let mut h = handler(false);
    let a = numbered_frame(100);
    write_guest(&mut h, 0x2000, &a);
    write_guest(&mut h, 0x3000, &[9u8; 50]);
    write_guest(&mut h, 0x4000, &[7u8; 50]);
    assert!(h.tx.queue.push_avail(0, vec![
        Descriptor { addr: 0x2000, len: 100, write_only: false },
        Descriptor { addr: 0x3000, len: 50, write_only: false },
        Descriptor { addr: 0x4000, len: 50, write_only: true },
        Descriptor { addr: 0x5000, len: 50, write_only: false },
    ]));
    h.process_tx();
    let mut expected = a.clone();
    expected.extend_from_slice(&[9u8; 50]);
    assert_eq!(h.tap.outgoing.len(), 1);
    assert_eq!(h.tap.outgoing[0], expected);
    assert_eq!(h.tx.queue.used.len(), 1);
}

#[test]
fn tx_every_chain_completed_once_in_order() {
    let mut h = handler(false);
    for i in 0..3u16 {
        assert!(h.tx.queue.push_avail(10 + i, vec![Descriptor { addr: 0x2000 + 0x100 * i as u64, len: 64, write_only: false }]));
    }
    h.process_tx();
    assert_eq!(h.tx.queue.used.len(), 3);
    for i in 0..3usize {
        assert_eq!(h.tx.queue.used[i].id, 10 + i as u16);
        assert_eq!(h.tx.queue.used[i].len, 0);
    }
    assert_eq!(h.tap.outgoing.len(), 3);
    assert_eq!(h.tx.queue.next_avail, 3);
}

#[test]
fn tx_tap_write_failure_still_completes_chain() {
    let mut h = handler(false);
    h.tap.writable = false;
    assert!(h.tx.queue.push_avail(0, vec![Descriptor { addr: 0x2000, len: 64, write_only: false }]));
    h.process_tx();
    assert_eq!(h.metrics.tx_fails, 1);
    assert_eq!(h.tap.outgoing.len(), 0);
    assert_eq!(h.tx.queue.used.len(), 1);
}

#[test]
fn tx_bad_address_truncates_frame() {
    let mut h = handler(false);
    write_guest(&mut h, 0x2000, &[3u8; 20]);
    assert!(h.tx.queue.push_avail(0, vec![
        Descriptor { addr: 0x2000, len: 20, write_only: false },
        Descriptor { addr: 0x20000, len: 20, write_only: false },
    ]));
    h.process_tx();
    assert_eq!(h.metrics.tx_fails, 1);
    assert_eq!(h.tap.outgoing[0], vec![3u8; 20]);
    assert_eq!(h.tx.queue.used.len(), 1);
}

#[test]
fn tx_rate_limited_chain_is_retried() {
    let mut h = handler(false);
    h.tx.rate_limiter = RateLimiter::new(Some(100), None);
    for i in 0..2u16 {
        assert!(h.tx.queue.push_avail(i, vec![Descriptor { addr: 0x2000, len: 60, write_only: false }]));
    }
    h.process_tx();
    assert_eq!(h.tx.queue.used.len(), 1);
    assert_eq!(h.tx.queue.next_avail, 1);
    assert!(h.tx.rate_limiter.is_blocked());
    assert_eq!(h.tx.rate_limiter.bytes, Some(TokenBucket { size: 100, budget: 40 }));
}

#[test]
fn features_pages() {
    let mut n = Net::new_with_tap(Tap::new(), None, EpollConfig::new(0, -1), None, None, false);
    assert_eq!(n.features(0), 0x4c83);
    assert_eq!(n.features(1), 1);
    assert_eq!(n.features(2), 0);
    assert_eq!(n.features(77), 0);
    n.ack_features(0, 0x20 | 0x3);
    assert_eq!(n.acked_features, 0x3);
    n.ack_features(1, 0xffff_ffff);
    assert_eq!(n.acked_features, 0x1_0000_0003);
    n.ack_features(2, 0xffff_ffff);
    assert_eq!(n.acked_features, 0x1_0000_0003);

    let m = Net::new_with_tap(Tap::new(), Some(MacAddr { bytes: [1, 2, 3, 4, 5, 6] }), EpollConfig::new(0, -1), None, None, false);
    assert_eq!(m.avail_features, BASE_FEATURES | MAC_FEATURE);
    assert_eq!(m.features(0), 0x4ca3);
}

#[test]
fn config_read_past_end() {
    let mut n = Net::new_with_tap(Tap::new(), Some(MacAddr { bytes: [1, 2, 3, 4, 5, 6] }), EpollConfig::new(0, -1), None, None, false);
    let mut out = vec![9u8; 4];
    n.read_config(6, &mut out);
    assert_eq!(out, vec![9u8; 4]);
    assert_eq!(n.metrics.cfg_fails, 1);
    n.read_config(4, &mut out);
    assert_eq!(out, vec![5, 6, 9, 9]);
    assert_eq!(n.metrics.cfg_fails, 1);

    let mut e = Net::new_with_tap(Tap::new(), None, EpollConfig::new(0, -1), None, None, false);
    let mut out = vec![9u8; 1];
    e.read_config(0, &mut out);
    assert_eq!(out, vec![9u8]);
    assert_eq!(e.metrics.cfg_fails, 1);
}

#[test]
fn config_write_out_of_bounds() {
    let mut n = Net::new_with_tap(Tap::new(), Some(MacAddr { bytes: [1, 2, 3, 4, 5, 6] }), EpollConfig::new(0, -1), None, None, false);
    n.write_config(4, &vec![7u8, 8, 9]);
    assert_eq!(n.config_space, vec![1, 2, 3, 4, 5, 6]);
    assert_eq!(n.metrics.cfg_fails, 1);
    n.write_config(4, &vec![7u8, 8]);
    assert_eq!(n.config_space, vec![1, 2, 3, 4, 7, 8]);
    assert_eq!(n.metrics.cfg_fails, 1);
    n.write_config(u64::MAX, &vec![1u8]);
    assert_eq!(n.metrics.cfg_fails, 2);
}

#[test]
fn epoll_tokens_follow_events() {
    let c = EpollConfig::new(100, 7);
    assert_eq!(c.rx_tap_token, 100);
    assert_eq!(c.rx_queue_token, 101);
    assert_eq!(c.tx_queue_token, 102);
    assert_eq!(c.rx_rate_limiter_token, 103);
    assert_eq!(c.tx_rate_limiter_token, 104);
    assert_eq!(c.epoll_raw_fd, 7);
}

#[test]
fn limiter_refund_is_symmetric() {
    let mut l = RateLimiter::new(Some(1000), Some(2));
    assert!(l.consume_frame(600));
    let before = l;
    assert!(!l.consume_frame(600));
    assert_eq!(l.bytes, before.bytes);
    assert_eq!(l.ops, before.ops);
    assert!(l.is_blocked());
    l.refund_frame(600);
    assert_eq!(l.bytes, Some(TokenBucket { size: 1000, budget: 1000 }));
    assert_eq!(l.ops, Some(TokenBucket { size: 2, budget: 2 }));
    l.manual_replenish(5, TokenType::Bytes);
    assert_eq!(l.bytes, Some(TokenBucket { size: 1000, budget: 1000 }));
    assert_eq!(l.event_handler(), Ok(()));
    assert!(!l.is_blocked());
    assert_eq!(l.event_handler(), Err(()));
}

#[test]
fn rx_rate_limited_leaves_budget() {
    let mut h = handler(false);
    h.rx.rate_limiter = RateLimiter::new(Some(1000), Some(10));
    h.rx.bytes_read = 1234;
    assert!(h.rx.queue.push_avail(0, vec![Descriptor { addr: 0x2000, len: 0x1000, write_only: true }]));
    assert_eq!(h.rate_limited_rx_single_frame(), RxDelivery::RateLimited);
    assert_eq!(h.rx.rate_limiter.bytes, Some(TokenBucket { size: 1000, budget: 1000 }));
    assert_eq!(h.rx.rate_limiter.ops, Some(TokenBucket { size: 10, budget: 10 }));
    assert_eq!(h.rx.queue.used.len(), 0);

    h.rx.bytes_read = 500;
    h.rx.queue = Queue::new(16);
    assert_eq!(h.rate_limited_rx_single_frame(), RxDelivery::NoBuffer);
    assert_eq!(h.rx.rate_limiter.bytes, Some(TokenBucket { size: 1000, budget: 1000 }));
    assert_eq!(h.rx.rate_limiter.ops, Some(TokenBucket { size: 10, budget: 10 }));

    assert!(h.rx.queue.push_avail(0, vec![Descriptor { addr: 0x2000, len: 0x1000, write_only: true }]));
    assert_eq!(h.rate_limited_rx_single_frame(), RxDelivery::Delivered);
    assert_eq!(h.rx.rate_limiter.bytes, Some(TokenBucket { size: 1000, budget: 500 }));
    assert_eq!(h.rx.rate_limiter.ops, Some(TokenBucket { size: 10, budget: 9 }));
}

#[test]
fn one_interrupt_per_drain_pass() {
    let mut h = handler(false);
    for i in 0..3u16 {
        assert!(h.rx.queue.push_avail(i, vec![Descriptor { addr: 0x2000 + 0x1000 * i as u64, len: 0x1000, write_only: true }]));
        h.tap.push_frame(numbered_frame(100 + i as usize));
    }
    h.handle_event(RX_TAP_EVENT);
    assert_eq!(h.rx.queue.used.len(), 3);
    assert_eq!(h.interrupt_evt.count, 1);
    assert_eq!(h.metrics.rx_packets_count, 3);
    assert_eq!(h.metrics.rx_bytes_count, 303);

    // Nothing new: no interrupt.
    h.handle_event(RX_TAP_EVENT);
    assert_eq!(h.interrupt_evt.count, 1);
}

#[test]
fn rx_read_error_and_eagain() {
    let mut h = handler(false);
    h.tap.incoming.push(TapRead::Error(EAGAIN));
    h.handle_event(RX_TAP_EVENT);
    assert_eq!(h.metrics.rx_fails, 0);
    h.tap.incoming.push(TapRead::Error(5));
    h.handle_event(RX_TAP_EVENT);
    assert_eq!(h.metrics.rx_fails, 1);
}

#[test]
fn rx_limiter_event_while_unblocked_fails() {
    let mut h = handler(false);
    h.handle_event(RX_RATE_LIMITER_EVENT);
    assert_eq!(h.metrics.event_fails, 1);
}

#[test]
fn queue_event_without_signal_counts_failure() {
    let mut h = handler(false);
    h.handle_event(RX_QUEUE_EVENT);
    assert_eq!(h.metrics.event_fails, 1);
    assert_eq!(h.metrics.rx_queue_event_count, 1);
}

#[test]
fn interrupt_counter_full_counts_failure() {
    let mut h = handler(false);
    h.interrupt_evt.count = EVENTFD_MAX;
    h.signal_used_queue();
    assert_eq!(h.interrupt_evt.count, EVENTFD_MAX);
    assert_eq!(h.metrics.event_fails, 1);
    assert_eq!(h.interrupt_status, VIRTIO_MMIO_INT_VRING);
}

#[test]
fn guest_memory_bounds() {
    let mut m = GuestMemory::new(16);
    let src = vec![1u8, 2, 3, 4, 5, 6];
    assert_eq!(m.write_slice_at_addr(&src, 0, 6, 12), Ok(4));
    assert_eq!(&m.bytes[12..16], &[1, 2, 3, 4]);
    assert_eq!(m.write_slice_at_addr(&src, 0, 6, 16), Err(MemoryError::InvalidGuestAddress(16)));
    let mut dst = vec![0u8; 8];
    assert_eq!(m.read_slice_at_addr(&mut dst, 2, 8, 13), Ok(3));
    assert_eq!(dst, vec![0, 0, 2, 3, 4, 0, 0, 0]);
    assert_eq!(m.read_slice_at_addr(&mut dst, 0, 8, 99), Err(MemoryError::InvalidGuestAddress(99)));
}

#[test]
fn tap_read_truncates_to_buffer() {
    let mut t = Tap::new();
    t.push_frame(vec![7u8; 10]);
    let mut buf = vec![0u8; 4];
    assert_eq!(t.read(&mut buf), Ok(4));
    assert_eq!(buf, vec![7u8; 4]);
    assert_eq!(t.read(&mut buf), Err(EAGAIN));
    assert_eq!(copy_range(&vec![1u8, 2, 3, 4], 1, 3), vec![2u8, 3]);
}

#[test]
fn largest_frame_fits_staging_buffer() {
    let mut h = handler(false);
    h.tap.push_frame(vec![1u8; MAX_BUFFER_SIZE + 10]);
    assert_eq!(h.read_from_mmds_or_tap(), Ok(MAX_BUFFER_SIZE));
}

#[test]
fn dropped_frame_is_not_retried() {
    let mut h = handler(false);
    assert!(h.rx.queue.push_avail(0, vec![Descriptor { addr: 0x2000, len: 100, write_only: true }]));
    h.tap.push_frame(numbered_frame(1234));
    h.handle_event(RX_TAP_EVENT);
    assert_eq!(h.rx.queue.used.len(), 1);
    assert!(!h.rx.deferred_frame);

    assert!(h.rx.queue.push_avail(1, vec![Descriptor { addr: 0x3000, len: 0x1000, write_only: true }]));
    h.rx.queue_evt.write(1).unwrap();
    h.handle_event(RX_QUEUE_EVENT);
    assert_eq!(h.rx.queue.used.len(), 1);
    assert_eq!(h.interrupt_evt.count, 1);
}

#[test]
fn mmds_frame_refund_covers_declared_length() {
    let mut h = handler(true);
    let request = arp_request([169, 254, 169, 254]);
    let at = 0x10000 - request.len();
    write_guest(&mut h, at, &request);
    h.tx.rate_limiter = RateLimiter::new(Some(1000), Some(5));
    assert!(h.tx.queue.push_avail(0, vec![Descriptor { addr: at as u64, len: 100, write_only: false }]));
    h.process_tx();
    assert_eq!(h.metrics.mmds_rx_accepted, 1);
    assert_eq!(h.tx.rate_limiter.bytes, Some(TokenBucket { size: 1000, budget: 1000 }));
    assert_eq!(h.tx.rate_limiter.ops, Some(TokenBucket { size: 5, budget: 5 }));
}

#[test]
fn empty_staged_frame_is_delivered() {
    let mut h = handler(false);
    assert!(h.rx.queue.push_avail(0, vec![Descriptor { addr: 0x2000, len: 16, write_only: true }]));
    h.rx.bytes_read = 0;
    assert_eq!(h.rx_single_frame(), RxDelivery::Delivered);
    assert_eq!(h.rx.queue.used[0].len, 0);
}
