//! The virtio network device: feature negotiation, configuration space
//! (the guest MAC address) and activation into a data-plane handler.

use vstd::prelude::*;
use crate::eventfd::EventFd;
use crate::handler::{NetEpollHandler, RxVirtio, TxVirtio, MAX_BUFFER_SIZE};
use crate::limiter::RateLimiter;
use crate::memory::GuestMemory;
use crate::metrics::{add_count, bump, NetMetrics};
use crate::mmds::MmdsNetworkStack;
use crate::queue::Queue;
use crate::tap::Tap;

verus! {

/// Virtio device type of a network device.
pub const TYPE_NET: u32 = 1;
pub const QUEUE_SIZE: u16 = 256;
pub const NUM_QUEUES: usize = 2;
pub const MAC_ADDR_LEN: usize = 6;

pub const VIRTIO_NET_F_CSUM: u64 = 0;
pub const VIRTIO_NET_F_GUEST_CSUM: u64 = 1;
pub const VIRTIO_NET_F_MAC: u64 = 5;
pub const VIRTIO_NET_F_GUEST_TSO4: u64 = 7;
pub const VIRTIO_NET_F_GUEST_UFO: u64 = 10;
pub const VIRTIO_NET_F_HOST_TSO4: u64 = 11;
pub const VIRTIO_NET_F_HOST_UFO: u64 = 14;
pub const VIRTIO_F_VERSION_1: u64 = 32;

/// The features every network device offers: checksum and segmentation
/// offloads and virtio 1.0.
pub const BASE_FEATURES: u64 = 0x1_0000_4c83;
/// The feature bit that says the configuration space holds a MAC address.
pub const MAC_FEATURE: u64 = 0x20;

/// Errors from setting up the TAP interface, each with the system error.
#[derive(Clone, Copy, Debug, PartialEq, Eq, Structural)]
pub enum Error {
    /// Open tap device failed.
    TapOpen(i32),
    /// Setting tap IP failed.
    TapSetIp(i32),
    /// Setting tap netmask failed.
    TapSetNetmask(i32),
    /// Setting tap interface offload flags failed.
    TapSetOffload(i32),
    /// Setting vnet header size failed.
    TapSetVnetHdrSize(i32),
    /// Enabling tap interface failed.
    TapEnable(i32),
}

#[derive(Clone, Copy, Debug, PartialEq, Eq, Structural)]
pub enum ActivateError {
    /// Wrong number of queues or queue events, or the device was activated already.
    BadActivate,
    /// Registering with the event loop failed.
    EpollCtl(i32),
}

#[derive(Clone, Copy, Debug)]
pub struct MacAddr {
    pub bytes: [u8; 6],
}

impl MacAddr {
    pub fn get_bytes(&self) -> (r: [u8; 6])
        ensures
            r == self.bytes,
    {
        self.bytes
    }
}

/// Event-loop tokens of the five events of one device, and the event loop.
#[derive(Clone, Copy, Debug, PartialEq, Eq, Structural)]
pub struct EpollConfig {
    pub rx_tap_token: u64,
    pub rx_queue_token: u64,
    pub tx_queue_token: u64,
    pub rx_rate_limiter_token: u64,
    pub tx_rate_limiter_token: u64,
    pub epoll_raw_fd: i32,
}

impl EpollConfig {
    /// Tokens `first_token..first_token + 5`, one per event, in event order.
    pub fn new(first_token: u64, epoll_raw_fd: i32) -> (r: EpollConfig)
        requires
            first_token + 4 <= u64::MAX,
        ensures
            r == (EpollConfig {
                rx_tap_token: first_token,
                rx_queue_token: (first_token + 1) as u64,
                tx_queue_token: (first_token + 2) as u64,
                rx_rate_limiter_token: (first_token + 3) as u64,
                tx_rate_limiter_token: (first_token + 4) as u64,
                epoll_raw_fd,
            }),
    {
        EpollConfig {
            rx_tap_token: first_token + crate::handler::RX_TAP_EVENT as u64,
            rx_queue_token: first_token + crate::handler::RX_QUEUE_EVENT as u64,
            tx_queue_token: first_token + crate::handler::TX_QUEUE_EVENT as u64,
            rx_rate_limiter_token: first_token + crate::handler::RX_RATE_LIMITER_EVENT as u64,
            tx_rate_limiter_token: first_token + crate::handler::TX_RATE_LIMITER_EVENT as u64,
            epoll_raw_fd,
        }
    }
}

/// Features offered by a device with or without a configured MAC address.
pub open spec fn offered_features(has_mac: bool) -> u64 {
    if has_mac {
        BASE_FEATURES | MAC_FEATURE
    } else {
        BASE_FEATURES
    }
}

/// The 64-bit view of a 32-bit feature page written by the guest.
pub open spec fn page_bits(page: u32, value: u32) -> u64 {
    if page == 0 {
        value as u64
    } else if page == 1 {
        (value as u64) << 32u64
    } else {
        0
    }
}

/// `config[offset..min(offset + want, config.len())]` over the front of `data`,
/// or `data` unchanged when the read starts past the end or overflows.
pub open spec fn config_read(config: Seq<u8>, offset: u64, data: Seq<u8>) -> Seq<u8> {
    if offset >= config.len() || offset + data.len() > u64::MAX {
        data
    } else {
        let end = if offset + data.len() <= config.len() {
            offset + data.len()
        } else {
            config.len() as int
        };
        config.subrange(offset as int, end) + data.subrange(end - offset, data.len() as int)
    }
}

pub struct Net {
    pub tap: Option<Tap>,
    pub avail_features: u64,
    pub acked_features: u64,
    /// The MAC address given by the user, or nothing.
    pub config_space: Vec<u8>,
    pub epoll_config: EpollConfig,
    pub rx_rate_limiter: Option<RateLimiter>,
    pub tx_rate_limiter: Option<RateLimiter>,
    pub allow_mmds_requests: bool,
    pub metrics: NetMetrics,
}

pub open spec fn limiter_wf(l: Option<RateLimiter>) -> bool {
    match l {
        Some(l) => l.wf(),
        None => true,
    }
}

/// The limiter a handler gets: the configured one, else one that never limits.
pub open spec fn limiter_or_unlimited(l: Option<RateLimiter>) -> RateLimiter {
    match l {
        Some(l) => l,
        None => RateLimiter { bytes: None, ops: None, blocked: false },
    }
}

impl Net {
    pub open spec fn wf(&self) -> bool {
        &&& limiter_wf(self.rx_rate_limiter)
        &&& limiter_wf(self.tx_rate_limiter)
        &&& (self.tap matches Some(t) ==> t.wf())
    }

    /// A network device on the given TAP endpoint, whose offloads and virtio
    /// net header size the caller has configured.
    pub fn new_with_tap(
        tap: Tap,
        guest_mac: Option<MacAddr>,
        epoll_config: EpollConfig,
        rx_rate_limiter: Option<RateLimiter>,
        tx_rate_limiter: Option<RateLimiter>,
        allow_mmds_requests: bool,
    ) -> (r: Net)
        requires
            tap.wf(),
            limiter_wf(rx_rate_limiter),
            limiter_wf(tx_rate_limiter),
        ensures
            r.wf(),
            r.tap == Some(tap),
            r.avail_features == offered_features(guest_mac is Some),
            r.acked_features == 0,
            guest_mac matches Some(m) ==> r.config_space@ == m.bytes@,
            guest_mac is None ==> r.config_space@.len() == 0,
            r.epoll_config == epoll_config,
            r.rx_rate_limiter == rx_rate_limiter,
            r.tx_rate_limiter == tx_rate_limiter,
            r.allow_mmds_requests == allow_mmds_requests,
            r.metrics == NetMetrics::new_spec(),
    {
        let mut avail_features: u64 = (1u64 << VIRTIO_NET_F_GUEST_CSUM) | (1u64 << VIRTIO_NET_F_CSUM)
            | (1u64 << VIRTIO_NET_F_GUEST_TSO4) | (1u64 << VIRTIO_NET_F_GUEST_UFO) | (1u64
            << VIRTIO_NET_F_HOST_TSO4) | (1u64 << VIRTIO_NET_F_HOST_UFO) | (1u64 << VIRTIO_F_VERSION_1);
        assert(avail_features == BASE_FEATURES) by (bit_vector)
            requires
                avail_features == (1u64 << 1u64) | (1u64 << 0u64) | (1u64 << 7u64) | (1u64 << 10u64) | (
                1u64 << 11u64) | (1u64 << 14u64) | (1u64 << 32u64),
        ;
        let mut config_space: Vec<u8> = Vec::new();
        if let Some(mac) = guest_mac {
            let bytes = mac.get_bytes();
            let mut i: usize = 0;
            while i < MAC_ADDR_LEN
                invariant
                    i <= MAC_ADDR_LEN,
                    bytes@.len() == MAC_ADDR_LEN,
                    config_space@ == bytes@.subrange(0, i as int),
                decreases MAC_ADDR_LEN - i,
            {
                config_space.push(bytes[i]);
                i += 1;
                assert(config_space@ =~= bytes@.subrange(0, i as int));
            }
            assert(bytes@.subrange(0, 6) =~= bytes@);
            avail_features = avail_features | (1u64 << VIRTIO_NET_F_MAC);
            assert((1u64 << 5u64) == MAC_FEATURE) by (bit_vector);
        }
        Net {
            tap: Some(tap),
            avail_features,
            acked_features: 0,
            config_space,
            epoll_config,
            rx_rate_limiter,
            tx_rate_limiter,
            allow_mmds_requests,
            metrics: NetMetrics::new(),
        }
    }

    pub fn device_type(&self) -> (r: u32)
        ensures
            r == TYPE_NET,
    {
        TYPE_NET
    }

    /// The maximum size of each of the device's queues.
    pub fn queue_max_sizes(&self) -> (r: Vec<u16>)
        ensures
            r@ == seq![QUEUE_SIZE, QUEUE_SIZE],
    {
        let r = vec![QUEUE_SIZE, QUEUE_SIZE];
        assert(r@ =~= seq![QUEUE_SIZE, QUEUE_SIZE]);
        r
    }

    /// The offered features, 32 bits at a time: page 0 holds the low half,
    /// page 1 the high half, any other page nothing.
    pub fn features(&self, page: u32) -> (r: u32)
        ensures
            page == 0 ==> r == self.avail_features as u32,
            page == 1 ==> r == (self.avail_features >> 32u64) as u32,
            page > 1 ==> r == 0,
    {
        if page == 0 {
            self.avail_features as u32
        } else if page == 1 {
            (self.avail_features >> 32u64) as u32
        } else {
            0u32
        }
    }

    /// Records the features the guest acknowledges on one page; features the
    /// device did not offer are ignored.
    pub fn ack_features(&mut self, page: u32, value: u32)
        ensures
            final(self).acked_features == old(self).acked_features | (page_bits(page, value)
                & old(self).avail_features),
            final(self).avail_features == old(self).avail_features,
            final(self).tap == old(self).tap,
            final(self).config_space == old(self).config_space,
            final(self).epoll_config == old(self).epoll_config,
            final(self).rx_rate_limiter == old(self).rx_rate_limiter,
            final(self).tx_rate_limiter == old(self).tx_rate_limiter,
            final(self).allow_mmds_requests == old(self).allow_mmds_requests,
            final(self).metrics == old(self).metrics,
    {
        let mut v: u64 = if page == 0 {
            value as u64
        } else if page == 1 {
            (value as u64) << 32u64
        } else {
            0u64
        };
        let avail = self.avail_features;
        let unrequested_features = v & !avail;
        if unrequested_features != 0 {
            v = v & !unrequested_features;
        }
        let v0 = if page == 0 {
            value as u64
        } else if page == 1 {
            (value as u64) << 32u64
        } else {
            0u64
        };
        assert(v == v0 & avail) by (bit_vector)
            requires
                (v0 & !avail) != 0 ==> v == v0 & !(v0 & !avail),
                (v0 & !avail) == 0 ==> v == v0,
        ;
        self.acked_features = self.acked_features | v;
    }

    /// Copies the configuration space from `offset` on into the front of
    /// `data`, as far as both reach. A read that starts past the end is
    /// counted as a failure and copies nothing.
    pub fn read_config(&mut self, offset: u64, data: &mut Vec<u8>)
        ensures
            final(data)@ == config_read(old(self).config_space@, offset, old(data)@),
            offset >= old(self).config_space@.len() ==> final(self).metrics == (NetMetrics {
                cfg_fails: bump(old(self).metrics.cfg_fails, 1),
                ..old(self).metrics
            }),
            offset < old(self).config_space@.len() ==> final(self).metrics == old(self).metrics,
            final(self).config_space == old(self).config_space,
            final(self).tap == old(self).tap,
            final(self).avail_features == old(self).avail_features,
            final(self).acked_features == old(self).acked_features,
            final(self).epoll_config == old(self).epoll_config,
            final(self).rx_rate_limiter == old(self).rx_rate_limiter,
            final(self).tx_rate_limiter == old(self).tx_rate_limiter,
            final(self).allow_mmds_requests == old(self).allow_mmds_requests,
    {
        let config_len = self.config_space.len() as u64;
        if offset >= config_len {
            self.metrics.cfg_fails = add_count(self.metrics.cfg_fails, 1);
            return;
        }
        let want = data.len() as u64;
        if want > u64::MAX - offset {
            return;
        }
        let end = if offset + want <= config_len {
            offset + want
        } else {
            config_len
        };
        let start = offset as usize;
        let n = (end - offset) as usize;
        let ghost d0 = data@;
        let clen = self.config_space.len();
        let mut i: usize = 0;
        while i < n
            invariant
                i <= n,
                clen == self.config_space@.len(),
                start + n <= clen,
                n <= d0.len(),
                data@.len() == d0.len(),
                data@ == self.config_space@.subrange(start as int, start + i) + d0.subrange(
                    i as int,
                    d0.len() as int,
                ),
            decreases n - i,
        {
            data.set(i, self.config_space[start + i]);
            i += 1;
            assert(data@ =~= self.config_space@.subrange(start as int, start + i) + d0.subrange(
                i as int,
                d0.len() as int,
            ));
        }
    }

    /// Overwrites the configuration space at `offset` with `data`. A write
    /// that does not fit is counted as a failure and changes nothing.
    pub fn write_config(&mut self, offset: u64, data: &Vec<u8>)
        ensures
            offset + data@.len() > old(self).config_space@.len() ==> final(self).config_space@ == old(
                self,
            ).config_space@ && final(self).metrics == (NetMetrics {
                cfg_fails: bump(old(self).metrics.cfg_fails, 1),
                ..old(self).metrics
            }),
            offset + data@.len() <= old(self).config_space@.len() ==> final(self).config_space@
                == crate::memory::overwrite(old(self).config_space@, offset as int, data@)
                && final(self).metrics == old(self).metrics,
            final(self).tap == old(self).tap,
            final(self).avail_features == old(self).avail_features,
            final(self).acked_features == old(self).acked_features,
            final(self).epoll_config == old(self).epoll_config,
            final(self).rx_rate_limiter == old(self).rx_rate_limiter,
            final(self).tx_rate_limiter == old(self).tx_rate_limiter,
            final(self).allow_mmds_requests == old(self).allow_mmds_requests,
    {
        let data_len = data.len() as u64;
        let config_len = self.config_space.len() as u64;
        if offset > config_len || data_len > config_len - offset {
            self.metrics.cfg_fails = add_count(self.metrics.cfg_fails, 1);
            return;
        }
        let start = offset as usize;
        let ghost c0 = self.config_space@;
        let clen = self.config_space.len();
        let mut i: usize = 0;
        while i < data.len()
            invariant
                i <= data@.len(),
                clen == c0.len(),
                start + data@.len() <= clen,
                self.tap == old(self).tap,
                self.metrics == old(self).metrics,
                self.avail_features == old(self).avail_features,
                self.acked_features == old(self).acked_features,
                self.epoll_config == old(self).epoll_config,
                self.rx_rate_limiter == old(self).rx_rate_limiter,
                self.tx_rate_limiter == old(self).tx_rate_limiter,
                self.allow_mmds_requests == old(self).allow_mmds_requests,
                c0 == old(self).config_space@,
                self.config_space@.len() == c0.len(),
                self.config_space@ == crate::memory::overwrite(c0, start as int, data@.subrange(0, i as int)),
            decreases data@.len() - i,
        {
            self.config_space.set(start + i, data[i]);
            i += 1;
            assert(self.config_space@ =~= crate::memory::overwrite(c0, start as int, data@.subrange(0, i as int)));
        }
        assert(data@.subrange(0, data@.len() as int) =~= data@);
    }

    /// Hands the device's TAP endpoint, queues and limiters to a new
    /// data-plane handler. It takes exactly two queues (receive, then
    /// transmit) and two queue events, and can be done once; otherwise it is
    /// counted as a failure and changes nothing else.
    pub fn activate(
        &mut self,
        mem: GuestMemory,
        interrupt_evt: EventFd,
        queues: Vec<Queue>,
        queue_evts: Vec<EventFd>,
    ) -> (r: Result<NetEpollHandler, ActivateError>)
        requires
            old(self).wf(),
            forall|i: int| 0 <= i < queues@.len() ==> (#[trigger] queues@[i]).wf(),
        ensures
            final(self).wf(),
            (r is Err) == (queues@.len() != NUM_QUEUES || queue_evts@.len() != NUM_QUEUES
                || old(self).tap is None),
            (r is Err) ==> r == Err::<NetEpollHandler, ActivateError>(ActivateError::BadActivate)
                && final(self).tap == old(self).tap && final(self).metrics == (NetMetrics {
                activate_fails: bump(old(self).metrics.activate_fails, 1),
                ..old(self).metrics
            }),
            r matches Ok(h) ==> h.at_rest() && Some(h.tap) == old(self).tap && h.mem == mem
                && h.rx.queue == queues@[0] && h.tx.queue == queues@[1]
                && h.rx.queue_evt == queue_evts@[0] && h.tx.queue_evt == queue_evts@[1]
                && h.rx.rate_limiter == limiter_or_unlimited(old(self).rx_rate_limiter)
                && h.tx.rate_limiter == limiter_or_unlimited(old(self).tx_rate_limiter)
                && !h.rx.deferred_frame && h.rx.bytes_read == 0 && h.interrupt_evt == interrupt_evt
                && h.interrupt_status == 0 && h.acked_features == old(self).acked_features
                && (h.mmds_ns is Some) == old(self).allow_mmds_requests
                && h.metrics == NetMetrics::new_spec() && h.frames_read@ == 0 && h.irq_signals@ == 0
                && h.rx_used_base@ == queues@[0].used@.len(),
            r is Ok ==> final(self).tap is None && final(self).rx_rate_limiter is None
                && final(self).tx_rate_limiter is None && final(self).metrics == old(self).metrics,
    {
        if queues.len() != NUM_QUEUES || queue_evts.len() != NUM_QUEUES || self.tap.is_none() {
            self.metrics.activate_fails = add_count(self.metrics.activate_fails, 1);
            return Err(ActivateError::BadActivate);
        }
        let tap = self.tap.take().unwrap();
        let mut queues = queues;
        let mut queue_evts = queue_evts;
        let rx_queue = queues.remove(0);
        let tx_queue = queues.remove(0);
        let rx_queue_evt = queue_evts.remove(0);
        let tx_queue_evt = queue_evts.remove(0);
        let mmds_ns = if self.allow_mmds_requests {
            Some(MmdsNetworkStack::new_with_defaults())
        } else {
            None
        };
        let rx_limiter = match self.rx_rate_limiter.take() {
            Some(l) => l,
            None => RateLimiter::unlimited(),
        };
        let tx_limiter = match self.tx_rate_limiter.take() {
            Some(l) => l,
            None => RateLimiter::unlimited(),
        };
        let used_base = Ghost(rx_queue.used@.len());
        let handler = NetEpollHandler {
            rx: RxVirtio::new(rx_queue, rx_queue_evt, rx_limiter),
            tap,
            mem,
            tx: TxVirtio::new(tx_queue, tx_queue_evt, tx_limiter),
            interrupt_status: 0,
            interrupt_evt,
            acked_features: self.acked_features,
            mmds_ns,
            metrics: NetMetrics::new(),
            frames_read: Ghost(0),
            rx_used_base: used_base,
            irq_signals: Ghost(0),
        };
        Ok(handler)
    }
}

} // verus!
