//! Event and failure counters of a network device. Counters wrap around.

use vstd::prelude::*;

verus! {

/// `c + n`, wrapping around at 2^64.
pub open spec fn bump(c: u64, n: u64) -> u64 {
    if c + n > u64::MAX {
        (c + n - 0x1_0000_0000_0000_0000) as u64
    } else {
        (c + n) as u64
    }
}

pub fn add_count(c: u64, n: u64) -> (r: u64)
    ensures
        r == bump(c, n),
{
    c.wrapping_add(n)
}

#[derive(Clone, Copy, Debug, PartialEq, Eq, Structural)]
pub struct NetMetrics {
    pub activate_fails: u64,
    pub cfg_fails: u64,
    pub event_fails: u64,
    pub rx_queue_event_count: u64,
    pub rx_event_rate_limiter_count: u64,
    pub rx_tap_event_count: u64,
    pub rx_bytes_count: u64,
    pub rx_packets_count: u64,
    pub rx_fails: u64,
    pub tx_bytes_count: u64,
    pub tx_fails: u64,
    pub tx_packets_count: u64,
    pub tx_queue_event_count: u64,
    pub tx_rate_limiter_event_count: u64,
    pub mmds_rx_accepted: u64,
    pub mmds_tx_frames: u64,
    pub mmds_tx_bytes: u64,
}

impl NetMetrics {
    pub open spec fn new_spec() -> NetMetrics {
        NetMetrics {
            activate_fails: 0,
            cfg_fails: 0,
            event_fails: 0,
            rx_queue_event_count: 0,
            rx_event_rate_limiter_count: 0,
            rx_tap_event_count: 0,
            rx_bytes_count: 0,
            rx_packets_count: 0,
            rx_fails: 0,
            tx_bytes_count: 0,
            tx_fails: 0,
            tx_packets_count: 0,
            tx_queue_event_count: 0,
            tx_rate_limiter_event_count: 0,
            mmds_rx_accepted: 0,
            mmds_tx_frames: 0,
            mmds_tx_bytes: 0,
        }
    }

    /// All counters at zero.
    pub fn new() -> (r: NetMetrics)
        ensures
            r == Self::new_spec(),
            r == (NetMetrics {
                activate_fails: 0,
                cfg_fails: 0,
                event_fails: 0,
                rx_queue_event_count: 0,
                rx_event_rate_limiter_count: 0,
                rx_tap_event_count: 0,
                rx_bytes_count: 0,
                rx_packets_count: 0,
                rx_fails: 0,
                tx_bytes_count: 0,
                tx_fails: 0,
                tx_packets_count: 0,
                tx_queue_event_count: 0,
                tx_rate_limiter_event_count: 0,
                mmds_rx_accepted: 0,
                mmds_tx_frames: 0,
                mmds_tx_bytes: 0,
            }),
    {
        NetMetrics {
            activate_fails: 0,
            cfg_fails: 0,
            event_fails: 0,
            rx_queue_event_count: 0,
            rx_event_rate_limiter_count: 0,
            rx_tap_event_count: 0,
            rx_bytes_count: 0,
            rx_packets_count: 0,
            rx_fails: 0,
            tx_bytes_count: 0,
            tx_fails: 0,
            tx_packets_count: 0,
            tx_queue_event_count: 0,
            tx_rate_limiter_event_count: 0,
            mmds_rx_accepted: 0,
            mmds_tx_frames: 0,
            mmds_tx_bytes: 0,
        }
    }
}

} // verus!
