use virtio_net::device::{
    ActivateError, EpollConfig, MacAddr, Net, BASE_FEATURES, MAC_ADDR_LEN, MAC_FEATURE, QUEUE_SIZE,
    TYPE_NET,
};
use virtio_net::eventfd::EventFd;
use virtio_net::handler::{
    init_vnet_hdr, NetEpollHandler, RxDelivery, MAX_BUFFER_SIZE, RX_QUEUE_EVENT,
    RX_RATE_LIMITER_EVENT, RX_TAP_EVENT, TX_QUEUE_EVENT, TX_RATE_LIMITER_EVENT, VNET_HDR_LEN,
};
use virtio_net::limiter::{RateLimiter, TokenType};
use virtio_net::memory::GuestMemory;
use virtio_net::queue::{Descriptor, Queue};
use virtio_net::tap::{Tap, TapRead};

const DADDR: u64 = 0x2000;

fn chain(addr: u64, len: u32, write_only: bool) -> Vec<Descriptor> {
    vec![Descriptor { addr, len, write_only }]
}

fn queue_with(index: u16, descs: Vec<Descriptor>) -> Queue {
    let mut q = Queue::new(16);
    assert!(q.push_avail(index, descs));
    q
}

fn activate_some_net(n: &mut Net, bad_qlen: bool, bad_evtlen: bool) -> Result<NetEpollHandler, ActivateError> {
    let mut queues = vec![Queue::new(16), Queue::new(16)];
    let mut queue_evts = vec![EventFd::new(), EventFd::new()];
    if bad_qlen {
        queues.pop();
    }
    if bad_evtlen {
        queue_evts.pop();
    }
    n.activate(GuestMemory::new(0x10000), EventFd::new(), queues, queue_evts)
}

fn test_net(guest_mac: Option<MacAddr>, mmds: bool) -> Net {
    Net::new_with_tap(Tap::new(), guest_mac, EpollConfig::new(0, -1), None, None, mmds)
}

fn test_handler_with(mmds: bool) -> NetEpollHandler {
    let mut n = test_net(None, mmds);
    match activate_some_net(&mut n, false, false) {
        Ok(h) => h,
        Err(_) => panic!("activation failed"),
    }
}

fn frame(len: usize, fill: u8) -> Vec<u8> {
    vec![fill; len]
}

/// An ARP request from 11:11:11:11:11:11 / 10.1.2.3 for `tpa`, behind a
/// zeroed virtio net header.
fn arp_request(tpa: [u8; 4]) -> Vec<u8> {
    let mut f = vec![0u8; VNET_HDR_LEN];
    f.extend_from_slice(&[0x22; 6]);
    f.extend_from_slice(&[0x11; 6]);
    f.extend_from_slice(&[0x08, 0x06, 0, 1, 0x08, 0, 6, 4, 0, 1]);
    f.extend_from_slice(&[0x11; 6]);
    f.extend_from_slice(&[10, 1, 2, 3]);
    f.extend_from_slice(&[0x22; 6]);
    f.extend_from_slice(&tpa);
    f
}

fn put_in_tx_buf(h: &mut NetEpollHandler, bytes: &[u8]) {
    for (i, b) in bytes.iter().enumerate() {
        h.tx.frame_buf[i] = *b;
    }
}

#[test]
fn test_vnet_helpers() {
    let mut frame_buf = vec![42u8; MAX_BUFFER_SIZE];
    assert_eq!(VNET_HDR_LEN, 12);

    init_vnet_hdr(&mut frame_buf);
    let zero_vnet_hdr = vec![0u8; VNET_HDR_LEN];
    assert_eq!(zero_vnet_hdr, &frame_buf[..VNET_HDR_LEN]);

    let payload = vec![42u8; MAX_BUFFER_SIZE - VNET_HDR_LEN];
    assert_eq!(payload, &frame_buf[VNET_HDR_LEN..]);

    frame_buf[VNET_HDR_LEN] = 15;
    assert_eq!(frame_buf[VNET_HDR_LEN], 15);
}

#[test]
fn test_virtio_device() {
    let mac = MacAddr { bytes: [0x11, 0x22, 0x33, 0x44, 0x55, 0x66] };
    let mut net = test_net(Some(mac), true);
    let n = &mut net;

    assert_eq!(n.device_type(), TYPE_NET);

    let x = n.queue_max_sizes();
    assert_eq!(x, vec![QUEUE_SIZE, QUEUE_SIZE]);
    for &y in &x {
        assert!(y > 0 && y & (y - 1) == 0);
    }

    let features: u64 = 1 << 1 | 1 << 0 | 1 << 7 | 1 << 5 | 1 << 10 | 1 << 11 | 1 << 14 | 1 << 32;
    assert_eq!(n.features(0), features as u32);
    assert_eq!(n.features(1), (features >> 32) as u32);
    for i in 2..10 {
        assert_eq!(n.features(i), 0u32);
    }
    for i in 0..10 {
        n.ack_features(i, u32::MAX);
    }
    assert_eq!(n.acked_features, features);

    let mut config_mac = vec![0u8; MAC_ADDR_LEN];
    n.read_config(0, &mut config_mac);
    assert_eq!(config_mac, mac.get_bytes().to_vec());

    let mut config_mac = vec![0u8; MAC_ADDR_LEN];
    let before = n.metrics.cfg_fails;
    n.read_config(MAC_ADDR_LEN as u64 + 1, &mut config_mac);
    assert_eq!(n.metrics.cfg_fails, before + 1);
    assert_eq!(config_mac, vec![0u8, 0u8, 0u8, 0u8, 0u8, 0u8]);

    let before = n.metrics.activate_fails;
    assert!(matches!(activate_some_net(n, true, false), Err(ActivateError::BadActivate)));
    assert_eq!(n.metrics.activate_fails, before + 1);
    assert!(matches!(activate_some_net(n, false, true), Err(ActivateError::BadActivate)));
    assert_eq!(n.metrics.activate_fails, before + 2);
    assert!(matches!(activate_some_net(n, true, true), Err(ActivateError::BadActivate)));
    assert_eq!(n.metrics.activate_fails, before + 3);
    assert!(activate_some_net(n, false, false).is_ok());
    assert_eq!(n.metrics.activate_fails, before + 3);
    assert!(matches!(activate_some_net(n, false, false), Err(ActivateError::BadActivate)));
    assert_eq!(n.metrics.activate_fails, before + 4);

    let new_config = vec![0x66u8, 0x55, 0x44, 0x33, 0x22, 0x11];
    n.write_config(0, &new_config);
    let mut new_config_read = vec![0u8; 6];
    n.read_config(0, &mut new_config_read);
    assert_eq!(new_config, new_config_read);

    let before = n.metrics.cfg_fails;
    n.write_config(5, &new_config);
    assert_eq!(n.metrics.cfg_fails, before + 1);
    let mut new_config_read = vec![0u8; 6];
    n.read_config(0, &mut new_config_read);
    assert_eq!(new_config, new_config_read);
}

#[test]
fn test_mmds_detour_and_injection() {
    let mut h = test_handler_with(true);
    let request = arp_request([169, 254, 169, 254]);
    let packet_len = request.len();
    put_in_tx_buf(&mut h, &request);

    let before = h.metrics.mmds_rx_accepted;
    assert!(h.write_to_mmds_or_tap(packet_len, packet_len as u64));
    assert_eq!(h.metrics.mmds_rx_accepted, before + 1);

    let before = h.metrics.mmds_tx_frames;
    h.read_from_mmds_or_tap().unwrap();
    assert_eq!(h.metrics.mmds_tx_frames, before + 1);
}

#[test]
fn test_handler_error_cases() {
    let mut h = test_handler_with(true);

    let before = h.metrics.event_fails;
    h.handle_event(RX_RATE_LIMITER_EVENT);
    assert_eq!(h.metrics.event_fails, before + 1);

    let before = h.metrics.event_fails;
    h.handle_event(TX_RATE_LIMITER_EVENT);
    assert_eq!(h.metrics.event_fails, before + 1);
}

#[test]
fn test_handler() {
    let mut h = test_handler_with(true);

    // Corner cases of delivering one frame.
    assert_eq!(h.rx.bytes_read, 0);
    h.rx.bytes_read = MAX_BUFFER_SIZE;
    {
        // A device-readable receive descriptor.
        h.rx.queue = queue_with(0, chain(DADDR, 0x1000, false));
        assert_ne!(h.rx_single_frame(), RxDelivery::Delivered);
        if h.rx.deferred_irqs {
            h.rx.deferred_irqs = false;
            h.signal_used_queue();
        }
        assert_eq!(h.rx.queue.used.len(), 1);
        h.interrupt_evt.write(1).unwrap();
        assert_eq!(h.interrupt_evt.read(), Ok(2));
    }
    {
        // A writable chain that is too short.
        h.rx.queue = queue_with(0, chain(DADDR, 0x1000, true));
        let before = h.metrics.rx_fails;
        assert_ne!(h.rx_single_frame(), RxDelivery::Delivered);
        if h.rx.deferred_irqs {
            h.rx.deferred_irqs = false;
            h.signal_used_queue();
        }
        assert_eq!(h.metrics.rx_fails, before + 1);
        assert_eq!(h.rx.queue.used.len(), 1);
        h.interrupt_evt.write(1).unwrap();
        assert_eq!(h.interrupt_evt.read(), Ok(2));
    }
    h.rx.bytes_read = 0;
    h.rx.queue = Queue::new(16);

    {
        // TX_QUEUE_EVENT
        h.tx.queue = queue_with(0, chain(DADDR, 0x1000, false));
        h.tx.queue_evt.write(1).unwrap();
        h.handle_event(TX_QUEUE_EVENT);
        assert_eq!(h.tx.queue.used.len(), 1);
    }

    {
        // RX_TAP_EVENT
        assert!(!h.rx.deferred_frame);
        h.rx.queue = queue_with(0, chain(DADDR, 0x1000, true));
        h.tap.push_frame(frame(1234, 5));
        h.tap.push_frame(frame(1234, 5));

        h.interrupt_evt.write(1).unwrap();
        h.handle_event(RX_TAP_EVENT);
        assert!(h.rx.deferred_frame);
        assert_eq!(h.interrupt_evt.read(), Ok(2));
        assert_eq!(h.rx.queue.used[0].len, 1234);

        // The deferred frame goes first on the next event.
        h.rx.queue = queue_with(0, chain(DADDR, 0x1000, true));
        h.tap.push_frame(frame(1234, 5));
        h.interrupt_evt.write(1).unwrap();
        h.handle_event(RX_TAP_EVENT);
        assert!(h.rx.deferred_frame);
        assert_eq!(h.interrupt_evt.read(), Ok(2));

        // A frame larger than the chain is dropped.
        h.rx.bytes_read = MAX_BUFFER_SIZE;
        h.rx.queue = queue_with(0, chain(DADDR, 0x1000, true));
        h.tap.push_frame(frame(1234, 5));
        h.interrupt_evt.write(1).unwrap();
        let before = h.metrics.rx_fails;
        h.handle_event(RX_TAP_EVENT);
        assert_eq!(h.metrics.rx_fails, before + 1);
        assert!(h.rx.deferred_frame);
        assert_eq!(h.interrupt_evt.read(), Ok(2));
        assert_ne!(h.rx.queue.used[0].len as usize, MAX_BUFFER_SIZE);
        assert_eq!(h.rx.bytes_read, 1234);
    }

    {
        // RX_QUEUE_EVENT
        assert!(h.rx.queue.push_avail(1, chain(DADDR + 0x1000, 0x1000, true)));
        h.rx.queue_evt.write(1).unwrap();
        h.interrupt_evt.write(1).unwrap();
        h.handle_event(RX_QUEUE_EVENT);
        assert_eq!(h.interrupt_evt.read(), Ok(2));
    }

    {
        let mut h = test_handler_with(true);
        h.tap.incoming.push(TapRead::Error(5));
        let before = h.metrics.rx_fails;
        h.process_rx();
        assert_eq!(h.metrics.rx_fails, before + 1);
    }
}

#[test]
fn test_bandwidth_rate_limiter() {
    let mut h = test_handler_with(true);

    // TX bandwidth limiting: 4096 bytes per refill, budget used up.
    {
        let mut rl = RateLimiter::new(Some(0x1000), None);
        assert!(rl.consume(0x1000, TokenType::Bytes));
        h.tx.rate_limiter = rl;
        h.tx.queue = queue_with(0, chain(DADDR, 0x1000, false));

        h.tx.queue_evt.write(1).unwrap();
        h.handle_event(TX_QUEUE_EVENT);
        assert!(h.tx.rate_limiter.is_blocked());
        assert_eq!(h.tx.queue.used.len(), 0);
        assert_eq!(h.tx.queue.next_avail, 0);

        h.handle_event(TX_RATE_LIMITER_EVENT);
        assert!(!h.tx.rate_limiter.is_blocked());
        assert_eq!(h.tx.queue.used.len(), 1);
    }

    // RX bandwidth limiting.
    {
        let mut rl = RateLimiter::new(Some(0x1000), None);
        assert!(rl.consume(0x1000, TokenType::Bytes));
        h.rx.rate_limiter = rl;
        assert!(!h.rx.deferred_frame);
        h.rx.queue = queue_with(0, chain(DADDR, 0x1000, true));
        h.tap.push_frame(frame(1234, 5));

        h.interrupt_evt.write(1).unwrap();
        h.handle_event(RX_TAP_EVENT);
        assert!(h.rx.rate_limiter.is_blocked());
        assert!(h.rx.deferred_frame);
        assert_eq!(h.interrupt_evt.read(), Ok(1));
        assert_eq!(h.rx.queue.used.len(), 0);

        h.interrupt_evt.write(1).unwrap();
        h.handle_event(RX_RATE_LIMITER_EVENT);
        assert!(!h.rx.rate_limiter.is_blocked());
        assert_eq!(h.interrupt_evt.read(), Ok(2));
        assert_eq!(h.rx.queue.used.len(), 1);
        assert_eq!(h.rx.queue.used[0].len, 1234);
    }
}

#[test]
fn test_ops_rate_limiter() {
    let mut h = test_handler_with(true);

    // TX ops limiting: one operation per refill, used up.
    {
        let mut rl = RateLimiter::new(None, Some(1));
        assert!(rl.consume(1, TokenType::Ops));
        h.tx.rate_limiter = rl;
        h.tx.queue = queue_with(0, chain(DADDR, 0x1000, false));

        h.tx.queue_evt.write(1).unwrap();
        h.handle_event(TX_QUEUE_EVENT);
        assert!(h.tx.rate_limiter.is_blocked());
        assert_eq!(h.tx.queue.used.len(), 0);

        h.handle_event(TX_RATE_LIMITER_EVENT);
        assert!(!h.tx.rate_limiter.is_blocked());
        assert_eq!(h.tx.queue.used.len(), 1);
    }

    // RX ops limiting.
    {
        let mut rl = RateLimiter::new(None, Some(1));
        assert!(rl.consume(1, TokenType::Ops));
        h.rx.rate_limiter = rl;
        assert!(!h.rx.deferred_frame);
        h.rx.queue = queue_with(0, chain(DADDR, 0x1000, true));
        h.tap.push_frame(frame(1234, 5));

        h.interrupt_evt.write(1).unwrap();
        h.handle_event(RX_TAP_EVENT);
        assert!(h.rx.rate_limiter.is_blocked());
        assert!(h.rx.deferred_frame);
        assert_eq!(h.interrupt_evt.read(), Ok(1));
        assert_eq!(h.rx.queue.used.len(), 0);

        // While blocked, the fast path leaves everything as it is.
        h.interrupt_evt.write(1).unwrap();
        h.handle_event(RX_TAP_EVENT);
        assert_eq!(h.interrupt_evt.read(), Ok(1));
        assert_eq!(h.rx.queue.used.len(), 0);

        h.interrupt_evt.write(1).unwrap();
        h.handle_event(RX_RATE_LIMITER_EVENT);
        assert_eq!(h.interrupt_evt.read(), Ok(2));
        assert_eq!(h.rx.queue.used.len(), 1);
        assert_eq!(h.rx.queue.used[0].len, 1234);
    }
}
