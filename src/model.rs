//! The data plane as a state machine over plain values: what each step of
//! the handler does to the device state. The handler's operations are
//! proved to act on `view` exactly as these functions say.

use vstd::prelude::*;
use crate::eventfd::{EventFd, EVENTFD_MAX};
use crate::handler::{
    can_charge, charged, rx_walk, tx_declared, tx_frame, NetEpollHandler, RxDelivery,
    MAX_BUFFER_SIZE, RX_QUEUE_EVENT, RX_RATE_LIMITER_EVENT, RX_TAP_EVENT, TX_QUEUE_EVENT,
    VIRTIO_MMIO_INT_VRING, VNET_HDR_LEN,
};
use crate::limiter::{bucket_fill, RateLimiter};
use crate::memory::access_len;
use crate::metrics::{bump, NetMetrics};
use crate::mmds::{addressed_to, arp_reply, is_arp_request};
use crate::queue::{Descriptor, DescriptorChain, UsedElem};
use crate::tap::{frames_of, TapRead, EAGAIN};

verus! {

/// Everything of a handler that its operations read or change, as values.
pub struct HView {
    pub rx_avail: Seq<DescriptorChain>,
    pub rx_next: int,
    pub rx_used: Seq<UsedElem>,
    pub rx_limiter: RateLimiter,
    pub rx_queue_evt: EventFd,
    pub deferred_frame: bool,
    pub deferred_irqs: bool,
    pub bytes_read: int,
    pub rx_buf: Seq<u8>,
    pub tx_avail: Seq<DescriptorChain>,
    pub tx_next: int,
    pub tx_used: Seq<UsedElem>,
    pub tx_limiter: RateLimiter,
    pub tx_queue_evt: EventFd,
    pub mem: Seq<u8>,
    pub tap_in: Seq<TapRead>,
    pub tap_out: Seq<Seq<u8>>,
    pub writable: bool,
    pub mmds_on: bool,
    pub mmds_ip: Seq<u8>,
    pub mmds_mac: Seq<u8>,
    pub mmds_received: Seq<Seq<u8>>,
    pub mmds_pending: Seq<Seq<u8>>,
    pub interrupt_status: u32,
    pub interrupt_count: u64,
    pub metrics: NetMetrics,
    pub frames_read: nat,
    pub irq_signals: nat,
}

pub open spec fn view(h: NetEpollHandler) -> HView {
    HView {
        rx_avail: h.rx.queue.avail@,
        rx_next: h.rx.queue.next_avail as int,
        rx_used: h.rx.queue.used@,
        rx_limiter: h.rx.rate_limiter,
        rx_queue_evt: h.rx.queue_evt,
        deferred_frame: h.rx.deferred_frame,
        deferred_irqs: h.rx.deferred_irqs,
        bytes_read: h.rx.bytes_read as int,
        rx_buf: h.rx.frame_buf@,
        tx_avail: h.tx.queue.avail@,
        tx_next: h.tx.queue.next_avail as int,
        tx_used: h.tx.queue.used@,
        tx_limiter: h.tx.rate_limiter,
        tx_queue_evt: h.tx.queue_evt,
        mem: h.mem@,
        tap_in: h.tap.incoming@,
        tap_out: frames_of(h.tap.outgoing@),
        writable: h.tap.writable,
        mmds_on: h.mmds_ns is Some,
        mmds_ip: match h.mmds_ns {
            Some(ns) => ns.ipv4_addr@,
            None => Seq::empty(),
        },
        mmds_mac: match h.mmds_ns {
            Some(ns) => ns.mac@,
            None => Seq::empty(),
        },
        mmds_received: match h.mmds_ns {
            Some(ns) => frames_of(ns.received@),
            None => Seq::empty(),
        },
        mmds_pending: match h.mmds_ns {
            Some(ns) => frames_of(ns.pending@),
            None => Seq::empty(),
        },
        interrupt_status: h.interrupt_status,
        interrupt_count: h.interrupt_evt.count,
        metrics: h.metrics,
        frames_read: h.frames_read@,
        irq_signals: h.irq_signals@,
    }
}

/// Raising the used-ring interrupt.
pub open spec fn sig(v: HView) -> HView {
    let v1 = HView {
        interrupt_status: v.interrupt_status | VIRTIO_MMIO_INT_VRING,
        irq_signals: v.irq_signals + 1,
        ..v
    };
    if v.interrupt_count < EVENTFD_MAX {
        HView { interrupt_count: (v.interrupt_count + 1) as u64, ..v1 }
    } else {
        HView { metrics: NetMetrics { event_fails: bump(v.metrics.event_fails, 1), ..v.metrics }, ..v1 }
    }
}

/// Signalling pending completions, if any.
pub open spec fn flush_irqs(v: HView) -> HView {
    if v.deferred_irqs {
        sig(HView { deferred_irqs: false, ..v })
    } else {
        v
    }
}

/// Writing the staged frame into the next receive chain.
pub open spec fn rx_deliver(v: HView) -> (HView, RxDelivery) {
    if v.rx_next >= v.rx_avail.len() {
        (v, RxDelivery::NoBuffer)
    } else {
        let c = v.rx_avail[v.rx_next];
        let w = rx_walk(c.descs@, 0, 0, v.rx_buf, v.bytes_read, v.mem);
        let m = if w.1 {
            NetMetrics { rx_fails: bump(v.metrics.rx_fails, 1), ..v.metrics }
        } else {
            NetMetrics {
                rx_bytes_count: bump(v.metrics.rx_bytes_count, v.bytes_read as u64),
                rx_packets_count: bump(v.metrics.rx_packets_count, 1),
                ..v.metrics
            }
        };
        (
            HView {
                rx_next: v.rx_next + 1,
                rx_used: v.rx_used.push(UsedElem { id: c.index, len: w.0 as u32 }),
                mem: w.2,
                deferred_irqs: true,
                metrics: m,
                ..v
            },
            if w.1 {
                RxDelivery::Dropped
            } else {
                RxDelivery::Delivered
            },
        )
    }
}

/// Delivering the staged frame under the receive limiter: charged one
/// operation and its length, given back unless delivered.
pub open spec fn rx_try(v: HView) -> (HView, RxDelivery) {
    let n = v.bytes_read as u64;
    if !can_charge(v.rx_limiter, n) {
        (HView { rx_limiter: RateLimiter { blocked: true, ..v.rx_limiter }, ..v }, RxDelivery::RateLimited)
    } else {
        let d = rx_deliver(HView { rx_limiter: charged(v.rx_limiter, n), ..v });
        if d.1 == RxDelivery::Delivered {
            d
        } else {
            (HView { rx_limiter: v.rx_limiter, ..d.0 }, d.1)
        }
    }
}

/// `n` zero bytes.
pub open spec fn zeros(n: nat) -> Seq<u8> {
    Seq::new(n, |i: int| 0u8)
}

/// Staging the next received frame: the metadata stack first, then the TAP endpoint.
pub open spec fn rx_read(v: HView) -> (HView, Result<int, i32>) {
    if v.mmds_on && v.mmds_pending.len() > 0 {
        let f = v.mmds_pending[0];
        let k = access_len(v.rx_buf.len() as int, VNET_HDR_LEN as int, f.len() as int);
        (
            HView {
                mmds_pending: v.mmds_pending.drop_first(),
                rx_buf: zeros(VNET_HDR_LEN as nat) + f.subrange(0, k) + v.rx_buf.subrange(
                    VNET_HDR_LEN + k,
                    v.rx_buf.len() as int,
                ),
                metrics: NetMetrics {
                    mmds_tx_frames: bump(v.metrics.mmds_tx_frames, 1),
                    mmds_tx_bytes: bump(v.metrics.mmds_tx_bytes, k as u64),
                    ..v.metrics
                },
                frames_read: v.frames_read + 1,
                ..v
            },
            Ok(VNET_HDR_LEN + k),
        )
    } else if v.tap_in.len() == 0 {
        (v, Err(EAGAIN))
    } else {
        match v.tap_in[0] {
            TapRead::Frame(f) => {
                let n = if f@.len() <= v.rx_buf.len() {
                    f@.len() as int
                } else {
                    v.rx_buf.len() as int
                };
                (
                    HView {
                        tap_in: v.tap_in.drop_first(),
                        rx_buf: f@.subrange(0, n) + v.rx_buf.subrange(n, v.rx_buf.len() as int),
                        frames_read: v.frames_read + 1,
                        ..v
                    },
                    Ok(n),
                )
            },
            TapRead::Error(e) => (HView { tap_in: v.tap_in.drop_first(), ..v }, Err(e)),
        }
    }
}

/// Frames waiting at the two sources.
pub open spec fn rx_backlog(v: HView) -> nat {
    (if v.mmds_on {
        v.mmds_pending.len()
    } else {
        0
    }) + v.tap_in.len()
}

/// The drain loop: stage and deliver frames in order until the sources are
/// empty or fail, or a frame cannot be delivered yet (it is then deferred).
pub open spec fn rx_drain(v: HView) -> HView
    decreases rx_backlog(v),
{
    let (v1, r) = rx_read(v);
    match r {
        Ok(n) => {
            let (v3, d) = rx_try(HView { bytes_read: n, ..v1 });
            if d == RxDelivery::Delivered || d == RxDelivery::Dropped {
                // A successful read always takes a frame, so the backlog shrinks.
                if rx_backlog(v3) < rx_backlog(v) {
                    rx_drain(v3)
                } else {
                    v3
                }
            } else {
                HView { deferred_frame: true, ..v3 }
            }
        },
        Err(e) => if e != EAGAIN {
            HView { metrics: NetMetrics { rx_fails: bump(v1.metrics.rx_fails, 1), ..v1.metrics }, ..v1 }
        } else {
            v1
        },
    }
}

/// A receive pass: the drain loop, then at most one interrupt.
pub open spec fn rx_process(v: HView) -> HView {
    flush_irqs(rx_drain(v))
}

/// Retrying a deferred frame; once it is gone the sources are drained.
pub open spec fn rx_resume(v: HView) -> HView {
    if !v.deferred_frame {
        v
    } else {
        let (v1, d) = rx_try(v);
        if d == RxDelivery::Delivered || d == RxDelivery::Dropped {
            rx_process(HView { deferred_frame: false, ..v1 })
        } else {
            flush_irqs(v1)
        }
    }
}

/// Whether reading a transmit chain's readable descriptors `i..k` meets an
/// address outside memory.
pub open spec fn tx_gather_fails(descs: Seq<Descriptor>, i: int, k: int, mem: Seq<u8>) -> bool
    decreases k - i,
{
    if i < 0 || i >= k || i >= descs.len() {
        false
    } else if descs[i].addr >= mem.len() {
        true
    } else {
        tx_gather_fails(descs, i + 1, k, mem)
    }
}

/// Whether the metadata endpoint of `v` takes the transmitted frame `f`.
pub open spec fn mmds_takes(v: HView, f: Seq<u8>) -> bool {
    v.mmds_on && f.len() >= VNET_HDR_LEN && addressed_to(
        f.subrange(VNET_HDR_LEN as int, f.len() as int),
        v.mmds_ip,
    )
}

/// Sending the transmitted frame `f`, which was charged `decl` bytes: to the
/// metadata endpoint, which takes it uncharged, or to the TAP endpoint.
pub open spec fn tx_sink(v: HView, f: Seq<u8>, decl: u64) -> HView {
    if mmds_takes(v, f) {
        let eth = f.subrange(VNET_HDR_LEN as int, f.len() as int);
        HView {
            mmds_received: v.mmds_received.push(eth),
            mmds_pending: if is_arp_request(eth) {
                v.mmds_pending.push(arp_reply(eth, v.mmds_mac, v.mmds_ip))
            } else {
                v.mmds_pending
            },
            tx_limiter: RateLimiter {
                ops: crate::limiter::bucket_give(v.tx_limiter.ops, 1),
                bytes: crate::limiter::bucket_give(v.tx_limiter.bytes, decl),
                blocked: v.tx_limiter.blocked,
            },
            metrics: NetMetrics { mmds_rx_accepted: bump(v.metrics.mmds_rx_accepted, 1), ..v.metrics },
            ..v
        }
    } else if v.writable {
        HView {
            tap_out: v.tap_out.push(f),
            metrics: NetMetrics {
                tx_bytes_count: bump(v.metrics.tx_bytes_count, f.len() as u64),
                tx_packets_count: bump(v.metrics.tx_packets_count, 1),
                ..v.metrics
            },
            ..v
        }
    } else {
        HView { metrics: NetMetrics { tx_fails: bump(v.metrics.tx_fails, 1), ..v.metrics }, ..v }
    }
}

/// One transmit chain (the next available one): refused by the limiter, in
/// which case the pass stops there, or charged, read, sent and completed.
/// The flag says whether the pass stops; the second whether the metadata
/// endpoint took the frame.
pub open spec fn tx_step(v: HView) -> (HView, bool, bool) {
    let c = v.tx_avail[v.tx_next];
    let decl = tx_declared(c.descs@) as u64;
    if !can_charge(v.tx_limiter, decl) {
        (HView { tx_limiter: RateLimiter { blocked: true, ..v.tx_limiter }, ..v }, true, false)
    } else {
        let f = tx_frame(c.descs@, v.mem);
        let k = crate::handler::readable_end(c.descs@, 0);
        let m = if tx_gather_fails(c.descs@, 0, k, v.mem) {
            NetMetrics { tx_fails: bump(v.metrics.tx_fails, 1), ..v.metrics }
        } else {
            v.metrics
        };
        let v1 = HView { tx_limiter: charged(v.tx_limiter, decl), metrics: m, ..v };
        let v2 = tx_sink(v1, f, decl);
        (
            HView {
                tx_next: v.tx_next + 1,
                tx_used: v.tx_used.push(UsedElem { id: c.index, len: 0 }),
                ..v2
            },
            false,
            mmds_takes(v1, f),
        )
    }
}

/// The transmit loop over the available chains; the flag says whether the
/// metadata endpoint took any frame.
pub open spec fn tx_run(v: HView) -> (HView, bool)
    decreases v.tx_avail.len() - v.tx_next,
{
    if v.tx_next < 0 || v.tx_next >= v.tx_avail.len() {
        (v, false)
    } else {
        let (v1, stop, took) = tx_step(v);
        if stop {
            (v1, false)
        } else {
            let (v2, took2) = tx_run(v1);
            (v2, took || took2)
        }
    }
}

/// A transmit pass, followed by a receive pass when the metadata endpoint
/// took a frame and no received frame is deferred.
pub open spec fn tx_process(v: HView) -> HView {
    let (t, took) = tx_run(v);
    if took && !v.deferred_frame {
        rx_process(t)
    } else {
        t
    }
}

/// Consuming a queue notification; a missing one is an event failure.
pub open spec fn take_notify(e: EventFd, m: NetMetrics) -> (EventFd, NetMetrics) {
    if e.count > 0 {
        (EventFd { count: 0 }, m)
    } else {
        (e, NetMetrics { event_fails: bump(m.event_fails, 1), ..m })
    }
}

/// One event of the device.
pub open spec fn event(v: HView, ev: u32) -> HView {
    if ev == RX_TAP_EVENT {
        let v0 = HView {
            metrics: NetMetrics { rx_tap_event_count: bump(v.metrics.rx_tap_event_count, 1), ..v.metrics },
            ..v
        };
        if v.rx_limiter.blocked {
            v0
        } else if v.deferred_frame {
            rx_resume(v0)
        } else {
            rx_process(v0)
        }
    } else if ev == RX_QUEUE_EVENT {
        let m0 = NetMetrics { rx_queue_event_count: bump(v.metrics.rx_queue_event_count, 1), ..v.metrics };
        let (e, m) = take_notify(v.rx_queue_evt, m0);
        let v1 = HView { rx_queue_evt: e, metrics: m, ..v };
        if !v.rx_limiter.blocked {
            rx_resume(v1)
        } else {
            v1
        }
    } else if ev == TX_QUEUE_EVENT {
        let m0 = NetMetrics { tx_queue_event_count: bump(v.metrics.tx_queue_event_count, 1), ..v.metrics };
        let (e, m) = take_notify(v.tx_queue_evt, m0);
        let v1 = HView { tx_queue_evt: e, metrics: m, ..v };
        if !v.tx_limiter.blocked {
            tx_process(v1)
        } else {
            v1
        }
    } else if ev == RX_RATE_LIMITER_EVENT {
        let m0 = NetMetrics {
            rx_event_rate_limiter_count: bump(v.metrics.rx_event_rate_limiter_count, 1),
            ..v.metrics
        };
        if v.rx_limiter.blocked {
            rx_resume(
                HView {
                    rx_limiter: RateLimiter {
                        bytes: bucket_fill(v.rx_limiter.bytes),
                        ops: bucket_fill(v.rx_limiter.ops),
                        blocked: false,
                    },
                    metrics: m0,
                    ..v
                },
            )
        } else {
            HView { metrics: NetMetrics { event_fails: bump(m0.event_fails, 1), ..m0 }, ..v }
        }
    } else {
        let m0 = NetMetrics {
            tx_rate_limiter_event_count: bump(v.metrics.tx_rate_limiter_event_count, 1),
            ..v.metrics
        };
        if v.tx_limiter.blocked {
            tx_process(
                HView {
                    tx_limiter: RateLimiter {
                        bytes: bucket_fill(v.tx_limiter.bytes),
                        ops: bucket_fill(v.tx_limiter.ops),
                        blocked: false,
                    },
                    metrics: m0,
                    ..v
                },
            )
        } else {
            HView { metrics: NetMetrics { event_fails: bump(m0.event_fails, 1), ..m0 }, ..v }
        }
    }
}

/// A staged frame that is not delivered leaves the receive limiter's budgets
/// as they were before the attempt.
pub proof fn lemma_rx_refusal_keeps_budgets(v: HView)
    requires
        v.rx_limiter.wf(),
        rx_try(v).1 != RxDelivery::Delivered,
    ensures
        crate::limiter::budgets(rx_try(v).0.rx_limiter) == crate::limiter::budgets(v.rx_limiter),
{
}

/// A transmit chain the limiter refuses leaves its budgets as they were
/// before the attempt, and the pass stops on that chain without taking it.
pub proof fn lemma_tx_refusal_keeps_budgets(v: HView)
    requires
        0 <= v.tx_next < v.tx_avail.len(),
        tx_step(v).1,
    ensures
        crate::limiter::budgets(tx_step(v).0.tx_limiter) == crate::limiter::budgets(v.tx_limiter),
        tx_step(v).0.tx_next == v.tx_next,
        tx_step(v).0.tx_used == v.tx_used,
        tx_step(v).0.tap_out == v.tap_out,
{
}

/// A transmit frame the metadata endpoint takes costs the transmit limiter
/// nothing.
pub proof fn lemma_mmds_frame_uncharged(v: HView)
    requires
        v.tx_limiter.wf(),
        0 <= v.tx_next < v.tx_avail.len(),
        !tx_step(v).1,
        tx_step(v).2,
    ensures
        tx_step(v).0.tx_limiter == v.tx_limiter,
        tx_step(v).0.tap_out == v.tap_out,
{
    let c = v.tx_avail[v.tx_next];
    let decl = tx_declared(c.descs@) as u64;
    crate::limiter::lemma_refund_restores(v.tx_limiter, decl);
}

/// The drain loop's accounting: every frame taken from the sources either
/// completes exactly one receive chain or is the one left deferred; no
/// interrupt is raised inside the loop, and completions are pending at the
/// end exactly when they were at the start or chains were completed.
pub proof fn lemma_rx_drain_accounting(v: HView)
    requires
        !v.deferred_frame,
    ensures
        v.rx_used.len() <= rx_drain(v).rx_used.len(),
        rx_drain(v).rx_used.subrange(0, v.rx_used.len() as int) == v.rx_used,
        rx_drain(v).rx_used.len() - v.rx_used.len() + (if rx_drain(v).deferred_frame {
            1int
        } else {
            0int
        }) == rx_drain(v).frames_read - v.frames_read,
        rx_drain(v).irq_signals == v.irq_signals,
        rx_drain(v).interrupt_count == v.interrupt_count,
        rx_drain(v).interrupt_status == v.interrupt_status,
        rx_drain(v).deferred_irqs == (v.deferred_irqs || rx_drain(v).rx_used.len() > v.rx_used.len()),
    decreases rx_backlog(v),
{
    let (v1, r) = rx_read(v);
    match r {
        Ok(n) => {
            let (v3, d) = rx_try(HView { bytes_read: n, ..v1 });
            if d == RxDelivery::Delivered || d == RxDelivery::Dropped {
                if rx_backlog(v3) < rx_backlog(v) {
                    lemma_rx_drain_accounting(v3);
                    let w = rx_drain(v3);
                    assert(w.rx_used.subrange(0, v.rx_used.len() as int) =~= w.rx_used.subrange(
                        0,
                        v3.rx_used.len() as int,
                    ).subrange(0, v.rx_used.len() as int));
                }
            }
        },
        Err(e) => {},
    }
    assert(rx_drain(v).rx_used.len() == v.rx_used.len() ==> rx_drain(v).rx_used.subrange(0, v.rx_used.len() as int)
        =~= v.rx_used);
}

/// A receive pass raises at most one interrupt, and one only when
/// completions were pending at its start or it completed a receive chain.
pub proof fn lemma_rx_process_one_interrupt(v: HView)
    requires
        !v.deferred_frame,
    ensures
        rx_process(v).irq_signals == v.irq_signals + (if v.deferred_irqs || rx_process(v).rx_used.len()
            > v.rx_used.len() {
            1int
        } else {
            0int
        }),
        !rx_process(v).deferred_irqs,
{
    lemma_rx_drain_accounting(v);
}

} // verus!
