//! The per-device data plane: moves frames from the TAP endpoint and the
//! metadata stack into guest receive buffers, and from guest transmit
//! buffers to the metadata stack or the TAP endpoint, under one rate limiter
//! per direction, with deferral of frames that cannot be delivered yet and
//! coalescing of guest interrupts.

use vstd::prelude::*;
use crate::eventfd::EventFd;
use crate::limiter::{bucket_allows, bucket_give, bucket_take, RateLimiter, TokenType};
use crate::memory::{access_len, overwrite, zeroed_buf, GuestMemory};
use crate::metrics::{add_count, bump, NetMetrics};
use crate::mmds::{addressed_to, MmdsNetworkStack};
use crate::queue::{Descriptor, Queue, UsedElem};
use crate::tap::{Tap, TapRead, EAGAIN};
use crate::model::{flush_irqs, rx_deliver, rx_process, rx_read, rx_resume, rx_try, sig, view};

verus! {

/// Size of a frame staging buffer: the virtio net header plus the largest
/// frame when segmentation offload is negotiated.
pub const MAX_BUFFER_SIZE: usize = 65562;

/// Length of the virtio net header that precedes every frame.
pub const VNET_HDR_LEN: usize = 12;

/// Interrupt status bit: a used ring was updated.
pub const VIRTIO_MMIO_INT_VRING: u32 = 1;

/// A frame is available for reading from the TAP endpoint.
pub const RX_TAP_EVENT: u32 = 0;
/// The guest has made a receive buffer available.
pub const RX_QUEUE_EVENT: u32 = 1;
/// The guest has made a frame available for transmission.
pub const TX_QUEUE_EVENT: u32 = 2;
/// The receive limiter has budget again.
pub const RX_RATE_LIMITER_EVENT: u32 = 3;
/// The transmit limiter has budget again.
pub const TX_RATE_LIMITER_EVENT: u32 = 4;
/// Number of events a network device handles.
pub const NET_EVENTS_COUNT: usize = 5;

/// What became of an attempt to hand the staged frame to the guest.
#[derive(Clone, Copy, Debug, PartialEq, Eq, Structural)]
pub enum RxDelivery {
    /// The whole frame was written into a receive chain.
    Delivered,
    /// No receive chain was available: the frame stays staged.
    NoBuffer,
    /// The chain could not hold the frame: the chain was completed with what
    /// was written and the frame is lost.
    Dropped,
    /// The limiter had no budget for the frame: the frame stays staged.
    RateLimited,
}

pub struct RxVirtio {
    pub queue_evt: EventFd,
    pub rate_limiter: RateLimiter,
    pub deferred_frame: bool,
    pub deferred_irqs: bool,
    pub queue: Queue,
    pub bytes_read: usize,
    pub frame_buf: Vec<u8>,
}

pub struct TxVirtio {
    pub queue_evt: EventFd,
    pub rate_limiter: RateLimiter,
    pub queue: Queue,
    pub used_desc_heads: Vec<u16>,
    pub frame_buf: Vec<u8>,
}

pub struct NetEpollHandler {
    pub rx: RxVirtio,
    pub tap: Tap,
    pub mem: GuestMemory,
    pub tx: TxVirtio,
    pub interrupt_status: u32,
    pub interrupt_evt: EventFd,
    pub acked_features: u64,
    pub mmds_ns: Option<MmdsNetworkStack>,
    pub metrics: NetMetrics,
    /// Frames taken from the metadata stack or the TAP endpoint so far.
    pub frames_read: Ghost<nat>,
    /// Length of the receive used ring when the handler was made.
    pub rx_used_base: Ghost<nat>,
    /// Interrupts raised so far.
    pub irq_signals: Ghost<nat>,
}

impl TxVirtio {
    pub fn new(queue: Queue, queue_evt: EventFd, rate_limiter: RateLimiter) -> (r: TxVirtio)
        ensures
            r.queue == queue,
            r.queue_evt == queue_evt,
            r.rate_limiter == rate_limiter,
            r.used_desc_heads@.len() == 0,
            r.frame_buf@ == Seq::new(MAX_BUFFER_SIZE as nat, |i: int| 0u8),
    {
        let tx_queue_max_size = queue.get_max_size() as usize;
        TxVirtio {
            queue_evt,
            rate_limiter,
            queue,
            used_desc_heads: Vec::with_capacity(tx_queue_max_size),
            frame_buf: zeroed_buf(MAX_BUFFER_SIZE),
        }
    }
}

impl RxVirtio {
    pub fn new(queue: Queue, queue_evt: EventFd, rate_limiter: RateLimiter) -> (r: RxVirtio)
        ensures
            r.queue == queue,
            r.queue_evt == queue_evt,
            r.rate_limiter == rate_limiter,
            !r.deferred_frame,
            !r.deferred_irqs,
            r.bytes_read == 0,
            r.frame_buf@ == Seq::new(MAX_BUFFER_SIZE as nat, |i: int| 0u8),
    {
        RxVirtio {
            queue_evt,
            rate_limiter,
            deferred_frame: false,
            deferred_irqs: false,
            queue,
            bytes_read: 0,
            frame_buf: zeroed_buf(MAX_BUFFER_SIZE),
        }
    }
}

/// Sets the virtio net header at the front of `buf` to zero.
pub fn init_vnet_hdr(buf: &mut Vec<u8>)
    requires
        old(buf)@.len() >= VNET_HDR_LEN,
    ensures
        final(buf)@ == Seq::new(VNET_HDR_LEN as nat, |i: int| 0u8) + old(buf)@.subrange(
            VNET_HDR_LEN as int,
            old(buf)@.len() as int,
        ),
{
    let ghost b0 = buf@;
    let mut i: usize = 0;
    while i < VNET_HDR_LEN
        invariant
            i <= VNET_HDR_LEN,
            buf@.len() == b0.len(),
            b0.len() >= VNET_HDR_LEN,
            buf@ == Seq::new(i as nat, |j: int| 0u8) + b0.subrange(i as int, b0.len() as int),
        decreases VNET_HDR_LEN - i,
    {
        buf.set(i, 0u8);
        i += 1;
        assert(buf@ =~= Seq::new(i as nat, |j: int| 0u8) + b0.subrange(i as int, b0.len() as int));
    }
}

/// Writing the frame `frame[..total]` into a receive chain from descriptor
/// `i` on, `wc` bytes being written already: how many bytes end up written,
/// whether the walk failed (a descriptor that is not device-writable, an
/// address outside memory, or the chain ending first), and the memory after.
pub open spec fn rx_walk(
    descs: Seq<Descriptor>,
    i: int,
    wc: int,
    frame: Seq<u8>,
    total: int,
    mem: Seq<u8>,
) -> (int, bool, Seq<u8>)
    decreases descs.len() - i,
{
    if i < 0 || i >= descs.len() {
        (wc, true, mem)
    } else if !descs[i].write_only || descs[i].addr >= mem.len() {
        (wc, true, mem)
    } else {
        let want = if descs[i].len <= total - wc {
            descs[i].len as int
        } else {
            total - wc
        };
        let n = access_len(mem.len() as int, descs[i].addr as int, want);
        let mem2 = overwrite(mem, descs[i].addr as int, frame.subrange(wc, wc + n));
        if wc + n >= total {
            (wc + n, false, mem2)
        } else {
            rx_walk(descs, i + 1, wc + n, frame, total, mem2)
        }
    }
}

/// The walk of the receive chain that `h` would use next for its staged frame.
pub open spec fn rx_next_walk(h: NetEpollHandler) -> (int, bool, Seq<u8>) {
    rx_walk(
        h.rx.queue.chain(h.rx.queue.next_avail as int),
        0,
        0,
        h.rx.frame_buf@,
        h.rx.bytes_read as int,
        h.mem@,
    )
}

/// `b` is `a` with nothing on the receive side changed but its limiter.
pub open spec fn rx_unchanged_but_limiter(a: NetEpollHandler, b: NetEpollHandler) -> bool {
    &&& b.rx.queue_evt == a.rx.queue_evt
    &&& b.rx.deferred_frame == a.rx.deferred_frame
    &&& b.rx.deferred_irqs == a.rx.deferred_irqs
    &&& b.rx.queue == a.rx.queue
    &&& b.rx.bytes_read == a.rx.bytes_read
    &&& b.rx.frame_buf == a.rx.frame_buf
    &&& b.mem == a.mem
    &&& b.metrics == a.metrics
    &&& b.frames_read == a.frames_read
    &&& b.irq_signals == a.irq_signals
}

/// `b` is `a` with nothing changed outside the receive side, guest memory and
/// the counters.
pub open spec fn others_unchanged(a: NetEpollHandler, b: NetEpollHandler) -> bool {
    &&& b.tap == a.tap
    &&& b.tx == a.tx
    &&& b.interrupt_status == a.interrupt_status
    &&& b.interrupt_evt == a.interrupt_evt
    &&& b.acked_features == a.acked_features
    &&& b.mmds_ns == a.mmds_ns
    &&& b.rx_used_base == a.rx_used_base
}

/// One attempt to write the staged frame of `a` into the next receive chain
/// gives `b` and outcome `r` (the limiter aside).
pub open spec fn rx_attempt(a: NetEpollHandler, b: NetEpollHandler, r: RxDelivery) -> bool {
    &&& others_unchanged(a, b)
    &&& if !a.rx.queue.has_avail() {
        r == RxDelivery::NoBuffer && rx_unchanged_but_limiter(a, b)
    } else {
        let p = a.rx.queue.next_avail as int;
        let w = rx_next_walk(a);
        &&& r == (if w.1 {
            RxDelivery::Dropped
        } else {
            RxDelivery::Delivered
        })
        &&& b.rx.queue.used@ == a.rx.queue.used@.push(
            UsedElem { id: a.rx.queue.avail@[p].index, len: w.0 as u32 },
        )
        &&& b.rx.queue.next_avail == p + 1
        &&& b.rx.queue.avail == a.rx.queue.avail
        &&& b.rx.queue.max_size == a.rx.queue.max_size
        &&& b.mem@ == w.2
        &&& b.rx.deferred_irqs
        &&& b.rx.queue_evt == a.rx.queue_evt
        &&& b.rx.deferred_frame == a.rx.deferred_frame
        &&& b.rx.bytes_read == a.rx.bytes_read
        &&& b.rx.frame_buf == a.rx.frame_buf
        &&& b.frames_read == a.frames_read
        &&& b.irq_signals == a.irq_signals
        &&& b.metrics == (if w.1 {
            NetMetrics { rx_fails: bump(a.metrics.rx_fails, 1), ..a.metrics }
        } else {
            NetMetrics {
                rx_bytes_count: bump(a.metrics.rx_bytes_count, a.rx.bytes_read as u64),
                rx_packets_count: bump(a.metrics.rx_packets_count, 1),
                ..a.metrics
            }
        })
    }
}

/// The limiter after one frame of `bytes` bytes was charged.
pub open spec fn charged(l: RateLimiter, bytes: u64) -> RateLimiter {
    RateLimiter { ops: bucket_take(l.ops, 1), bytes: bucket_take(l.bytes, bytes), blocked: l.blocked }
}

/// Whether the limiter has budget for one frame of `bytes` bytes.
pub open spec fn can_charge(l: RateLimiter, bytes: u64) -> bool {
    bucket_allows(l.ops, 1) && bucket_allows(l.bytes, bytes)
}

/// Frames waiting at the metadata stack.
pub open spec fn mmds_pending(h: NetEpollHandler) -> nat {
    match h.mmds_ns {
        Some(ns) => ns.pending@.len(),
        None => 0,
    }
}

/// The next frame the metadata stack has for the guest.
pub open spec fn mmds_head(h: NetEpollHandler) -> Seq<u8> {
    match h.mmds_ns {
        Some(ns) => ns.pending@[0]@,
        None => Seq::empty(),
    }
}

/// `after` is `before` with the metadata frame `f` staged behind a zeroed
/// virtio net header (clipped to the buffer), `n` bytes in all.
pub open spec fn staged_from_mmds(before: Seq<u8>, f: Seq<u8>, after: Seq<u8>, n: usize) -> bool {
    let k = access_len(before.len() as int, VNET_HDR_LEN as int, f.len() as int);
    &&& n == VNET_HDR_LEN + k
    &&& after == Seq::new(VNET_HDR_LEN as nat, |i: int| 0u8) + f.subrange(0, k) + before.subrange(
        VNET_HDR_LEN + k,
        before.len() as int,
    )
}

/// Nothing is waiting at either source of received frames.
pub open spec fn rx_sources_idle(h: NetEpollHandler) -> bool {
    mmds_pending(h) == 0 && h.tap.incoming@.len() == 0
}

/// The TAP reads waiting in `b` are those of `a` with some taken from the front.
pub open spec fn tap_reads_taken(a: Tap, b: Tap) -> bool {
    &&& b.incoming@.len() <= a.incoming@.len()
    &&& b.incoming@ == a.incoming@.subrange(
        a.incoming@.len() - b.incoming@.len(),
        a.incoming@.len() as int,
    )
}

/// The last TAP read taken between `a` and `b` was an error.
pub open spec fn last_tap_read_failed(a: Tap, b: Tap) -> bool {
    let k = a.incoming@.len() - b.incoming@.len();
    k >= 1 && a.incoming@[k - 1] is Error
}

/// A receive pass took `a` to `b`: frames were only taken from the sources
/// and completions only appended to the receive used ring, and the guest was
/// interrupted once exactly when completions were pending at the start or
/// were added.
pub open spec fn rx_pass(a: NetEpollHandler, b: NetEpollHandler) -> bool {
    &&& b.wf()
    &&& !b.rx.deferred_irqs
    &&& b.acked_features == a.acked_features
    &&& b.rx_used_base == a.rx_used_base
    &&& b.rx.queue.avail == a.rx.queue.avail
    &&& b.rx.queue.max_size == a.rx.queue.max_size
    &&& a.rx.queue.used@.len() <= b.rx.queue.used@.len()
    &&& b.rx.queue.used@.subrange(0, a.rx.queue.used@.len() as int) == a.rx.queue.used@
    &&& tap_reads_taken(a.tap, b.tap)
    &&& (b.mmds_ns is Some) == (a.mmds_ns is Some)
    &&& b.irq_signals@ == a.irq_signals@ + (if a.rx.deferred_irqs || b.rx.queue.used@.len()
        > a.rx.queue.used@.len() {
        1int
    } else {
        0int
    })
}

/// The metadata endpoint of `b` has the same addresses as that of `a`.
pub open spec fn mmds_addr_kept(a: NetEpollHandler, b: NetEpollHandler) -> bool {
    match (a.mmds_ns, b.mmds_ns) {
        (Some(x), Some(y)) => x.ipv4_addr == y.ipv4_addr && x.mac == y.mac,
        (None, None) => true,
        _ => false,
    }
}

pub proof fn lemma_taken_trans(a: Tap, b: Tap, c: Tap)
    requires
        tap_reads_taken(a, b),
        tap_reads_taken(b, c),
    ensures
        tap_reads_taken(a, c),
        last_tap_read_failed(b, c) ==> last_tap_read_failed(a, c),
{
    let la = a.incoming@.len() as int;
    let lb = b.incoming@.len() as int;
    let lc = c.incoming@.len() as int;
    assert(c.incoming@ =~= a.incoming@.subrange(la - lc, la));
    if last_tap_read_failed(b, c) {
        assert(b.incoming@[lb - lc - 1] == a.incoming@[la - lc - 1]);
    }
}

pub proof fn lemma_taken_refl(a: Tap)
    ensures
        tap_reads_taken(a, a),
{
    assert(a.incoming@ =~= a.incoming@.subrange(0, a.incoming@.len() as int));
}

/// Receive completions never outnumber the frames taken from the sources:
/// since the handler was made, each frame read completes at most one
/// receive chain, and a deferred frame has completed none yet.
pub proof fn lemma_rx_completions_bounded(h: NetEpollHandler)
    requires
        h.wf(),
    ensures
        h.rx.queue.used@.len() - h.rx_used_base@ <= h.frames_read@,
        h.rx.deferred_frame ==> h.rx.queue.used@.len() - h.rx_used_base@ < h.frames_read@,
{
}

/// Position of the first device-writable descriptor of a transmit chain at
/// or after `i` (the chain's length if there is none): the frame is read
/// from the descriptors before it.
pub open spec fn readable_end(descs: Seq<Descriptor>, i: int) -> int
    decreases descs.len() - i,
{
    if i < 0 || i >= descs.len() || descs[i].write_only {
        i
    } else {
        readable_end(descs, i + 1)
    }
}

/// The summed lengths of the first `k` descriptors.
pub open spec fn declared_len(descs: Seq<Descriptor>, k: int) -> int
    decreases k,
{
    if k <= 0 {
        0
    } else {
        declared_len(descs, k - 1) + descs[k - 1].len
    }
}

/// The length a transmit chain declares for its frame.
pub open spec fn tx_declared(descs: Seq<Descriptor>) -> int {
    declared_len(descs, readable_end(descs, 0))
}

/// Reading descriptors `i..k` of a transmit chain after `acc`: each adds the
/// guest bytes at its address, clipped to the staging buffer and to memory;
/// an address outside memory ends the frame.
pub open spec fn tx_gather(descs: Seq<Descriptor>, i: int, k: int, acc: Seq<u8>, mem: Seq<u8>) -> Seq<u8>
    decreases k - i,
{
    if i < 0 || i >= k || i >= descs.len() || descs[i].addr >= mem.len() {
        acc
    } else {
        let want = if descs[i].len <= MAX_BUFFER_SIZE - acc.len() {
            descs[i].len as int
        } else {
            MAX_BUFFER_SIZE - acc.len()
        };
        let n = access_len(mem.len() as int, descs[i].addr as int, want);
        tx_gather(descs, i + 1, k, acc + mem.subrange(descs[i].addr as int, descs[i].addr + n), mem)
    }
}

/// The frame (virtio net header included) that a transmit chain carries.
pub open spec fn tx_frame(descs: Seq<Descriptor>, mem: Seq<u8>) -> Seq<u8> {
    tx_gather(descs, 0, readable_end(descs, 0), Seq::empty(), mem)
}

/// Whether the metadata endpoint takes a transmitted frame (header included).
pub open spec fn goes_to_mmds(mmds: Option<MmdsNetworkStack>, frame: Seq<u8>) -> bool {
    match mmds {
        Some(ns) => frame.len() >= VNET_HDR_LEN && addressed_to(
            frame.subrange(VNET_HDR_LEN as int, frame.len() as int),
            ns.ipv4_addr@,
        ),
        None => false,
    }
}

/// The frames that the transmit chains at positions `from..to` of `q` put on
/// the TAP endpoint: those the metadata endpoint does not take, when the
/// endpoint accepts writes.
pub open spec fn tx_sent(
    q: Queue,
    from: int,
    to: int,
    mem: Seq<u8>,
    mmds: Option<MmdsNetworkStack>,
    writable: bool,
) -> Seq<Seq<u8>>
    decreases to - from,
{
    if to <= from {
        Seq::empty()
    } else {
        let prev = tx_sent(q, from, to - 1, mem, mmds, writable);
        let f = tx_frame(q.chain(to - 1), mem);
        if writable && !goes_to_mmds(mmds, f) {
            prev.push(f)
        } else {
            prev
        }
    }
}

/// Whether the metadata endpoint takes any of the frames of the transmit
/// chains at positions `from..to` of `q`.
pub open spec fn tx_any_to_mmds(
    q: Queue,
    from: int,
    to: int,
    mem: Seq<u8>,
    mmds: Option<MmdsNetworkStack>,
) -> bool
    decreases to - from,
{
    if to <= from {
        false
    } else {
        tx_any_to_mmds(q, from, to - 1, mem, mmds) || goes_to_mmds(mmds, tx_frame(q.chain(to - 1), mem))
    }
}

/// A transmit pass took `a` to `b`: the chains from `a`'s next available
/// one up to `b`'s were each sent and completed once, in order; the pass
/// stopped early only on a chain the limiter could not serve; and if the
/// metadata endpoint took a frame while no received frame was deferred, the
/// receive side was drained as far as buffers and budget allow.
pub open spec fn tx_pass(a: NetEpollHandler, b: NetEpollHandler) -> bool {
    let n0 = a.tx.queue.next_avail as int;
    let n1 = b.tx.queue.next_avail as int;
    let to_mmds = !a.rx.deferred_frame && tx_any_to_mmds(a.tx.queue, n0, n1, a.mem@, a.mmds_ns);
    &&& n0 <= n1
    &&& b.tx.queue.avail == a.tx.queue.avail
    &&& b.tx.queue.max_size == a.tx.queue.max_size
    &&& b.tx.queue.used@ == a.tx.queue.used@ + tx_completions(a.tx.queue, n0, n1)
    &&& crate::tap::frames_of(b.tap.outgoing@) == crate::tap::frames_of(a.tap.outgoing@) + tx_sent(
        a.tx.queue,
        n0,
        n1,
        a.mem@,
        a.mmds_ns,
        a.tap.writable,
    )
    &&& b.tx.queue.has_avail() ==> b.tx.rate_limiter.blocked && !can_charge(
        b.tx.rate_limiter,
        tx_declared(b.tx.queue.chain(n1)) as u64,
    )
    &&& !to_mmds ==> b.rx == a.rx && b.mem == a.mem && b.tap.incoming == a.tap.incoming
    &&& to_mmds ==> (!b.rx.deferred_frame ==> rx_sources_idle(b) || last_tap_read_failed(a.tap, b.tap))
    &&& to_mmds ==> (b.rx.deferred_frame ==> !b.rx.queue.has_avail() || !can_charge(
        b.rx.rate_limiter,
        b.rx.bytes_read as u64,
    ))
}

/// `view(h)` with the transmit chains `n0..n0 + cnt` of `q0` completed and
/// the next chain at `n0 + cnt`: the state a transmit pass is in while it
/// holds those completions back.
pub open spec fn tx_adjusted(h: NetEpollHandler, q0: Queue, n0: int, cnt: int) -> crate::model::HView {
    crate::model::HView {
        tx_used: q0.used@ + tx_completions(q0, n0, n0 + cnt),
        tx_next: n0 + cnt,
        ..view(h)
    }
}

/// The completions of the transmit chains at positions `from..to`.
pub open spec fn tx_completions(q: Queue, from: int, to: int) -> Seq<UsedElem> {
    Seq::new((to - from) as nat, |j: int| UsedElem { id: q.avail@[from + j].index, len: 0 })
}

/// No frame that the metadata endpoint takes is put on the TAP endpoint.
pub proof fn lemma_tx_sent_avoids_mmds(
    q: Queue,
    from: int,
    to: int,
    mem: Seq<u8>,
    mmds: Option<MmdsNetworkStack>,
    writable: bool,
)
    ensures
        forall|j: int|
            0 <= j < tx_sent(q, from, to, mem, mmds, writable).len() ==> !goes_to_mmds(
                mmds,
                #[trigger] tx_sent(q, from, to, mem, mmds, writable)[j],
            ),
    decreases to - from,
{
    if to > from {
        lemma_tx_sent_avoids_mmds(q, from, to - 1, mem, mmds, writable);
        let prev = tx_sent(q, from, to - 1, mem, mmds, writable);
        let all = tx_sent(q, from, to, mem, mmds, writable);
        assert forall|j: int| 0 <= j < all.len() implies !goes_to_mmds(mmds, #[trigger] all[j]) by {
            if j < prev.len() {
                assert(all[j] == prev[j]);
            }
        }
    }
}

pub proof fn lemma_declared_bound(descs: Seq<Descriptor>, k: int)
    requires
        0 <= k,
    ensures
        0 <= declared_len(descs, k) <= k * 0xffff_ffff,
    decreases k,
{
    if k > 0 {
        lemma_declared_bound(descs, k - 1);
    }
}

impl NetEpollHandler {
    pub open spec fn wf(&self) -> bool {
        &&& self.rx.frame_buf@.len() == MAX_BUFFER_SIZE
        &&& self.tx.frame_buf@.len() == MAX_BUFFER_SIZE
        &&& self.rx.bytes_read <= MAX_BUFFER_SIZE
        &&& self.rx.deferred_frame ==> self.rx.bytes_read > 0
        &&& self.rx.rate_limiter.wf()
        &&& self.tx.rate_limiter.wf()
        &&& self.rx.queue.wf()
        &&& self.tx.queue.wf()
        &&& self.tap.wf()
        &&& self.rx_used_base@ <= self.rx.queue.used@.len()
        &&& self.rx.queue.used@.len() - self.rx_used_base@ + (if self.rx.deferred_frame {
            1int
        } else {
            0int
        }) <= self.frames_read@
    }

    /// Raises the used-ring interrupt: sets the status bit and signals the
    /// interrupt counter (a failed signal is counted as an event failure).
    pub fn signal_used_queue(&mut self)
        ensures
            view(*final(self)) == sig(view(*old(self))),
            final(self).interrupt_status == old(self).interrupt_status | VIRTIO_MMIO_INT_VRING,
            final(self).irq_signals@ == old(self).irq_signals@ + 1,
            old(self).interrupt_evt.count < crate::eventfd::EVENTFD_MAX ==> final(self).interrupt_evt.count
                == old(self).interrupt_evt.count + 1 && final(self).metrics == old(self).metrics,
            old(self).interrupt_evt.count >= crate::eventfd::EVENTFD_MAX ==> final(self).interrupt_evt
                == old(self).interrupt_evt && final(self).metrics == (NetMetrics {
                event_fails: bump(old(self).metrics.event_fails, 1),
                ..old(self).metrics
            }),
            final(self).rx == old(self).rx,
            final(self).tx == old(self).tx,
            final(self).tap == old(self).tap,
            final(self).mem == old(self).mem,
            final(self).mmds_ns == old(self).mmds_ns,
            final(self).acked_features == old(self).acked_features,
            final(self).frames_read == old(self).frames_read,
            final(self).rx_used_base == old(self).rx_used_base,
    {
        self.interrupt_status = self.interrupt_status | VIRTIO_MMIO_INT_VRING;
        self.irq_signals = Ghost(self.irq_signals@ + 1);
        if self.interrupt_evt.write(1).is_err() {
            self.metrics.event_fails = add_count(self.metrics.event_fails, 1);
        }
    }

    /// Writes the staged frame into the next receive chain, if there is one,
    /// and completes that chain with the number of bytes written.
    pub fn rx_single_frame(&mut self) -> (r: RxDelivery)
        requires
            old(self).wf(),
        ensures
            rx_attempt(*old(self), *final(self), r),
            (view(*final(self)), r) == rx_deliver(view(*old(self))),
            final(self).rx.rate_limiter == old(self).rx.rate_limiter,
            r != RxDelivery::RateLimited,
    {
        let next = self.rx.queue.next_chain();
        let p = match next {
            None => return RxDelivery::NoBuffer,
            Some(p) => p,
        };
        let head_index = self.rx.queue.avail[p].index;
        let total = self.rx.bytes_read;
        let nd = self.rx.queue.avail[p].descs.len();
        let ghost descs = self.rx.queue.avail@[p as int].descs@;
        let ghost frame = self.rx.frame_buf@;
        let ghost mem_len = self.mem@.len();
        let ghost goal = rx_walk(descs, 0, 0, frame, total as int, old(self).mem@);
        let mut write_count: usize = 0;
        let mut i: usize = 0;
        let mut failed = false;
        loop
            invariant_except_break
                write_count <= total,
                !failed,
                i <= nd,
                rx_walk(descs, i as int, write_count as int, frame, total as int, self.mem@) == goal,
            invariant
                nd == descs.len(),
                total <= MAX_BUFFER_SIZE,
                frame.len() == MAX_BUFFER_SIZE,
                self.rx.frame_buf@ == frame,
                self.rx.frame_buf == old(self).rx.frame_buf,
                self.rx.bytes_read == total,
                self.mem@.len() == mem_len,
                p < self.rx.queue.avail@.len(),
                self.rx.queue.avail@[p as int].descs@ == descs,
                self.rx.queue == (Queue { next_avail: (p + 1) as usize, ..old(self).rx.queue }),
                self.rx.rate_limiter == old(self).rx.rate_limiter,
                self.rx.deferred_frame == old(self).rx.deferred_frame,
                self.rx.deferred_irqs == old(self).rx.deferred_irqs,
                self.rx.queue_evt == old(self).rx.queue_evt,
                self.metrics == old(self).metrics,
                others_unchanged(*old(self), *self),
                self.frames_read == old(self).frames_read,
                self.irq_signals == old(self).irq_signals,
            ensures
                write_count <= total,
                !failed ==> write_count == total,
                goal == (write_count as int, failed, self.mem@),
                self.rx.queue == (Queue { next_avail: (p + 1) as usize, ..old(self).rx.queue }),
            decreases nd - i,
        {
            if i >= nd {
                failed = true;
                break;
            }
            let d = self.rx.queue.avail[p].descs[i];
            if !d.write_only {
                failed = true;
                break;
            }
            let limit = if (d.len as usize) <= total - write_count {
                write_count + d.len as usize
            } else {
                total
            };
            let ghost m_before = self.mem@;
            let ghost wc_before = write_count as int;
            match self.mem.write_slice_at_addr(&self.rx.frame_buf, write_count, limit, d.addr) {
                Ok(sz) => {
                    write_count = write_count + sz;
                },
                Err(_) => {
                    failed = true;
                    break;
                },
            }
            proof {
                let step = rx_walk(descs, i as int, wc_before, frame, total as int, m_before);
                assert(d == descs[i as int]);
                if write_count >= total {
                    assert(step == (write_count as int, false, self.mem@));
                } else {
                    assert(step == rx_walk(descs, i + 1, write_count as int, frame, total as int, self.mem@));
                }
            }
            if write_count >= total {
                break;
            }
            i += 1;
        }
        self.rx.queue.add_used(head_index, write_count as u32);
        self.rx.deferred_irqs = true;
        if failed {
            self.metrics.rx_fails = add_count(self.metrics.rx_fails, 1);
            RxDelivery::Dropped
        } else {
            self.metrics.rx_bytes_count = add_count(self.metrics.rx_bytes_count, write_count as u64);
            self.metrics.rx_packets_count = add_count(self.metrics.rx_packets_count, 1);
            RxDelivery::Delivered
        }
    }

    /// Hands the staged frame to the guest if the receive limiter has budget
    /// for it. The frame is charged one operation and its length in bytes;
    /// unless it is delivered, both are given back.
    pub fn rate_limited_rx_single_frame(&mut self) -> (r: RxDelivery)
        requires
            old(self).wf(),
        ensures
            (view(*final(self)), r) == rx_try(view(*old(self))),
            !can_charge(old(self).rx.rate_limiter, old(self).rx.bytes_read as u64) ==> r
                == RxDelivery::RateLimited && rx_unchanged_but_limiter(*old(self), *final(self))
                && others_unchanged(*old(self), *final(self)) && final(self).rx.rate_limiter == (
            RateLimiter { blocked: true, ..old(self).rx.rate_limiter }),
            can_charge(old(self).rx.rate_limiter, old(self).rx.bytes_read as u64) ==> rx_attempt(
                *old(self),
                *final(self),
                r,
            ),
            r == RxDelivery::Delivered ==> final(self).rx.rate_limiter == charged(
                old(self).rx.rate_limiter,
                old(self).rx.bytes_read as u64,
            ),
            r != RxDelivery::Delivered && r != RxDelivery::RateLimited ==> final(self).rx.rate_limiter
                == old(self).rx.rate_limiter,
    {
        let bytes = self.rx.bytes_read as u64;
        if !self.rx.rate_limiter.consume_frame(bytes) {
            return RxDelivery::RateLimited;
        }
        let r = self.rx_single_frame();
        match r {
            RxDelivery::Delivered => {},
            _ => {
                proof {
                    crate::limiter::lemma_refund_restores(old(self).rx.rate_limiter, bytes);
                }
                self.rx.rate_limiter.refund_frame(bytes);
            },
        }
        r
    }

    /// Stages the next received frame: from the metadata stack if it has one
    /// (behind a zeroed virtio net header), else from the TAP endpoint
    /// (which delivers the header with the frame). Returns the staged length.
    pub fn read_from_mmds_or_tap(&mut self) -> (r: Result<usize, i32>)
        requires
            old(self).wf(),
        ensures
            view(*final(self)) == rx_read(view(*old(self))).0,
            (match r {
                Ok(n) => rx_read(view(*old(self))).1 == Ok::<int, i32>(n as int),
                Err(e) => rx_read(view(*old(self))).1 == Err::<int, i32>(e),
            }),
            final(self).rx.frame_buf@.len() == MAX_BUFFER_SIZE,
            final(self).tap.wf(),
            r matches Ok(n) ==> 0 < n <= MAX_BUFFER_SIZE,
            (r is Ok) ==> final(self).frames_read@ == old(self).frames_read@ + 1,
            (r is Err) ==> final(self).frames_read == old(self).frames_read,
            mmds_pending(*old(self)) > 0 ==> (r is Ok) && final(self).tap == old(self).tap
                && mmds_pending(*final(self)) == mmds_pending(*old(self)) - 1
                && staged_from_mmds(old(self).rx.frame_buf@, mmds_head(*old(self)), final(self).rx.frame_buf@, r.unwrap()),
            mmds_pending(*old(self)) == 0 && old(self).tap.incoming@.len() > 0 ==> (
            match old(self).tap.incoming@[0] {
                TapRead::Frame(f) => r == Ok::<usize, i32>(if f@.len() <= MAX_BUFFER_SIZE {
                    f@.len() as usize
                } else {
                    MAX_BUFFER_SIZE
                }) && final(self).rx.frame_buf@ == f@.subrange(0, r.unwrap() as int) + old(self).rx.frame_buf@.subrange(
                    r.unwrap() as int,
                    MAX_BUFFER_SIZE as int,
                ),
                TapRead::Error(e) => r == Err::<usize, i32>(e) && final(self).rx.frame_buf@ == old(self).rx.frame_buf@,
            }),
            mmds_pending(*old(self)) == 0 ==> mmds_pending(*final(self)) == 0
                && tap_reads_taken(old(self).tap, final(self).tap)
                && (old(self).tap.incoming@.len() == 0 ==> r == Err::<usize, i32>(EAGAIN)
                    && final(self).tap == old(self).tap)
                && (old(self).tap.incoming@.len() > 0 ==> final(self).tap.incoming@.len()
                    == old(self).tap.incoming@.len() - 1 && ((r is Err) == (old(self).tap.incoming@[0] is Error))),
            final(self).tap.outgoing == old(self).tap.outgoing,
            final(self).tap.writable == old(self).tap.writable,
            final(self).rx.queue == old(self).rx.queue,
            final(self).rx.queue_evt == old(self).rx.queue_evt,
            final(self).rx.rate_limiter == old(self).rx.rate_limiter,
            final(self).rx.deferred_frame == old(self).rx.deferred_frame,
            final(self).rx.deferred_irqs == old(self).rx.deferred_irqs,
            final(self).rx.bytes_read == old(self).rx.bytes_read,
            final(self).tx == old(self).tx,
            final(self).mem == old(self).mem,
            final(self).interrupt_status == old(self).interrupt_status,
            final(self).interrupt_evt == old(self).interrupt_evt,
            final(self).acked_features == old(self).acked_features,
            final(self).irq_signals == old(self).irq_signals,
            final(self).rx_used_base == old(self).rx_used_base,
            mmds_pending(*old(self)) > 0 ==> final(self).metrics == (NetMetrics {
                mmds_tx_frames: bump(old(self).metrics.mmds_tx_frames, 1),
                mmds_tx_bytes: bump(old(self).metrics.mmds_tx_bytes, (r.unwrap() - VNET_HDR_LEN) as u64),
                ..old(self).metrics
            }),
            mmds_pending(*old(self)) == 0 ==> final(self).metrics == old(self).metrics,
            final(self).mmds_ns is Some == old(self).mmds_ns is Some,
            mmds_addr_kept(*old(self), *final(self)),
    {
        let mut ns_slot = self.mmds_ns.take();
        let mut staged: Option<usize> = None;
        if let Some(mut ns) = ns_slot {
            staged = ns.write_next_frame(&mut self.rx.frame_buf, VNET_HDR_LEN);
            ns_slot = Some(ns);
        }
        self.mmds_ns = ns_slot;
        let ghost buf1 = self.rx.frame_buf@;
        if let Some(len) = staged {
            self.metrics.mmds_tx_frames = add_count(self.metrics.mmds_tx_frames, 1);
            self.metrics.mmds_tx_bytes = add_count(self.metrics.mmds_tx_bytes, len as u64);
            init_vnet_hdr(&mut self.rx.frame_buf);
            proof {
                let f = mmds_head(*old(self));
                let b0 = old(self).rx.frame_buf@;
                let ns0 = old(self).mmds_ns.unwrap();
                let ns1 = self.mmds_ns.unwrap();
                assert(crate::tap::frames_of(ns1.pending@) =~= crate::tap::frames_of(ns0.pending@).drop_first());
                assert(self.rx.frame_buf@ =~= Seq::new(VNET_HDR_LEN as nat, |i: int| 0u8) + f.subrange(0, len as int)
                    + b0.subrange(VNET_HDR_LEN + len, b0.len() as int));
            }
            self.frames_read = Ghost(self.frames_read@ + 1);
            return Ok(VNET_HDR_LEN + len);
        }
        let r = self.tap.read(&mut self.rx.frame_buf);
        proof {
            let a = old(self).tap.incoming@;
            if a.len() > 0 {
                assert(self.tap.incoming@ =~= a.subrange(a.len() - self.tap.incoming@.len(), a.len() as int));
            } else {
                assert(self.tap.incoming@ =~= a.subrange(0, 0));
            }
        }
        if r.is_ok() {
            self.frames_read = Ghost(self.frames_read@ + 1);
        }
        r
    }

    /// Drains the sources into the guest until they are empty, a read fails,
    /// or the staged frame cannot be delivered (it is then deferred). Raises
    /// at most one interrupt at the end, if completions are pending.
    pub fn process_rx(&mut self)
        requires
            old(self).wf(),
            !old(self).rx.deferred_frame,
        ensures
            view(*final(self)) == rx_process(view(*old(self))),
            rx_pass(*old(self), *final(self)),
            final(self).tx == old(self).tx,
            final(self).tap.outgoing == old(self).tap.outgoing,
            final(self).tap.writable == old(self).tap.writable,
            mmds_addr_kept(*old(self), *final(self)),
            !final(self).rx.deferred_frame ==> rx_sources_idle(*final(self)) || last_tap_read_failed(
                old(self).tap,
                final(self).tap,
            ),
            final(self).rx.deferred_frame ==> !final(self).rx.queue.has_avail() || !can_charge(
                final(self).rx.rate_limiter,
                final(self).rx.bytes_read as u64,
            ),
    {
        proof {
            lemma_taken_refl(self.tap);
        }
        loop
            invariant_except_break
                !self.rx.deferred_frame,
                crate::model::rx_drain(view(*self)) == crate::model::rx_drain(view(*old(self))),
            invariant
                self.wf(),
                !self.rx.deferred_irqs ==> !old(self).rx.deferred_irqs && self.rx.queue.used@.len()
                    == old(self).rx.queue.used@.len(),
                self.rx.deferred_irqs ==> old(self).rx.deferred_irqs || self.rx.queue.used@.len()
                    > old(self).rx.queue.used@.len(),
                self.tx == old(self).tx,
                self.acked_features == old(self).acked_features,
                self.rx_used_base == old(self).rx_used_base,
                self.rx.queue.avail == old(self).rx.queue.avail,
                self.rx.queue.max_size == old(self).rx.queue.max_size,
                old(self).rx.queue.used@.len() <= self.rx.queue.used@.len(),
                self.rx.queue.used@.subrange(0, old(self).rx.queue.used@.len() as int) == old(
                    self,
                ).rx.queue.used@,
                tap_reads_taken(old(self).tap, self.tap),
                self.tap.outgoing == old(self).tap.outgoing,
                self.tap.writable == old(self).tap.writable,
                mmds_addr_kept(*old(self), *self),
                (self.mmds_ns is Some) == (old(self).mmds_ns is Some),
                self.irq_signals == old(self).irq_signals,
            ensures
                view(*self) == crate::model::rx_drain(view(*old(self))),
                !self.rx.deferred_frame ==> rx_sources_idle(*self) || last_tap_read_failed(
                    old(self).tap,
                    self.tap,
                ),
                self.rx.deferred_frame ==> !self.rx.queue.has_avail() || !can_charge(
                    self.rx.rate_limiter,
                    self.rx.bytes_read as u64,
                ),
            decreases mmds_pending(*self) + self.tap.incoming@.len(),
        {
            let ghost before = *self;
            let ghost vb = view(*self);
            match self.read_from_mmds_or_tap() {
                Ok(count) => {
                    proof {
                        lemma_taken_refl(before.tap);
                        lemma_taken_trans(old(self).tap, before.tap, self.tap);
                    }
                    self.rx.bytes_read = count;
                    let ghost staged = *self;
                    let d = self.rate_limited_rx_single_frame();
                    proof {
                        assert(self.rx.queue.used@.subrange(0, old(self).rx.queue.used@.len() as int)
                            =~= old(self).rx.queue.used@);
                    }
                    proof {
                        assert(crate::model::rx_backlog(view(*self)) < crate::model::rx_backlog(vb));
                    }
                    match d {
                        RxDelivery::Delivered => {},
                        RxDelivery::Dropped => {},
                        _ => {
                            self.rx.deferred_frame = true;
                            break;
                        },
                    }
                },
                Err(e) => {
                    proof {
                        lemma_taken_trans(old(self).tap, before.tap, self.tap);
                    }
                    if e != EAGAIN {
                        self.metrics.rx_fails = add_count(self.metrics.rx_fails, 1);
                    }
                    break;
                },
            }
        }
        if self.rx.deferred_irqs {
            self.rx.deferred_irqs = false;
            self.signal_used_queue();
        }
    }

    /// Retries the deferred frame, if any; once it is gone (delivered or
    /// dropped) the sources are drained further. If it stays deferred,
    /// pending completions are still signalled.
    pub fn resume_rx(&mut self)
        requires
            old(self).wf(),
            !old(self).rx.deferred_irqs,
        ensures
            view(*final(self)) == rx_resume(view(*old(self))),
            rx_pass(*old(self), *final(self)),
            final(self).tx == old(self).tx,
            final(self).tap.outgoing == old(self).tap.outgoing,
            final(self).tap.writable == old(self).tap.writable,
            mmds_addr_kept(*old(self), *final(self)),
            !old(self).rx.deferred_frame ==> *final(self) == *old(self),
            old(self).rx.deferred_frame && final(self).rx.queue.used@.len() == old(self).rx.queue.used@.len()
                ==> final(self).rx.deferred_frame && final(self).tap.incoming == old(self).tap.incoming,
            !final(self).rx.deferred_frame ==> !old(self).rx.deferred_frame || rx_sources_idle(*final(self))
                || last_tap_read_failed(old(self).tap, final(self).tap),
    {
        if self.rx.deferred_frame {
            let d = self.rate_limited_rx_single_frame();
            match d {
                RxDelivery::Delivered | RxDelivery::Dropped => {
                    self.rx.deferred_frame = false;
                    let ghost mid = *self;
                    self.process_rx();
                    proof {
                        lemma_taken_refl(old(self).tap);
                        assert(mid.rx.queue.used@.subrange(0, old(self).rx.queue.used@.len() as int)
                            =~= old(self).rx.queue.used@);
                        assert(self.rx.queue.used@.subrange(0, old(self).rx.queue.used@.len() as int)
                            =~= old(self).rx.queue.used@);
                    }
                },
                _ => {
                    proof {
                        lemma_taken_refl(old(self).tap);
                        assert(self.rx.queue.used@.subrange(0, old(self).rx.queue.used@.len() as int)
                            =~= old(self).rx.queue.used@);
                    }
                    if self.rx.deferred_irqs {
                        self.rx.deferred_irqs = false;
                        self.signal_used_queue();
                    }
                },
            }
        } else {
            proof {
                lemma_taken_refl(old(self).tap);
                assert(self.rx.queue.used@.subrange(0, old(self).rx.queue.used@.len() as int)
                    =~= old(self).rx.queue.used@);
            }
        }
    }

    /// Sends the staged transmit frame `tx.frame_buf[..len]`: the metadata
    /// endpoint takes it if it is addressed there (and the `charged_bytes`
    /// and one operation charged for it go back to the transmit limiter),
    /// else it is written to the TAP endpoint. Returns whether the metadata
    /// endpoint took it.
    pub fn write_to_mmds_or_tap(&mut self, len: usize, charged_bytes: u64) -> (r: bool)
        requires
            old(self).wf(),
            len <= MAX_BUFFER_SIZE,
        ensures
            view(*final(self)) == crate::model::tx_sink(
                view(*old(self)),
                old(self).tx.frame_buf@.subrange(0, len as int),
                charged_bytes,
            ),
            final(self).wf(),
            r == goes_to_mmds(old(self).mmds_ns, old(self).tx.frame_buf@.subrange(0, len as int)),
            final(self).rx == old(self).rx,
            final(self).mem == old(self).mem,
            final(self).tx.queue == old(self).tx.queue,
            final(self).tx.frame_buf == old(self).tx.frame_buf,
            final(self).tx.used_desc_heads == old(self).tx.used_desc_heads,
            final(self).tap.incoming == old(self).tap.incoming,
            final(self).tap.writable == old(self).tap.writable,
            final(self).interrupt_status == old(self).interrupt_status,
            final(self).interrupt_evt == old(self).interrupt_evt,
            final(self).acked_features == old(self).acked_features,
            final(self).frames_read == old(self).frames_read,
            final(self).rx_used_base == old(self).rx_used_base,
            final(self).irq_signals == old(self).irq_signals,
            mmds_addr_kept(*old(self), *final(self)),
            r ==> final(self).tap.outgoing == old(self).tap.outgoing && final(self).tx.rate_limiter == (
            RateLimiter {
                ops: bucket_give(old(self).tx.rate_limiter.ops, 1),
                bytes: bucket_give(old(self).tx.rate_limiter.bytes, charged_bytes),
                blocked: old(self).tx.rate_limiter.blocked,
            }),
            !r ==> final(self).tx.rate_limiter == old(self).tx.rate_limiter && final(self).mmds_ns
                == old(self).mmds_ns,
            !r && old(self).tap.writable ==> crate::tap::frames_of(final(self).tap.outgoing@)
                == crate::tap::frames_of(old(self).tap.outgoing@).push(
                old(self).tx.frame_buf@.subrange(0, len as int),
            ),
            !r && !old(self).tap.writable ==> final(self).tap.outgoing == old(self).tap.outgoing,
            r ==> final(self).metrics == (NetMetrics {
                mmds_rx_accepted: bump(old(self).metrics.mmds_rx_accepted, 1),
                ..old(self).metrics
            }),
            !r && old(self).tap.writable ==> final(self).metrics == (NetMetrics {
                tx_bytes_count: bump(old(self).metrics.tx_bytes_count, len as u64),
                tx_packets_count: bump(old(self).metrics.tx_packets_count, 1),
                ..old(self).metrics
            }),
            !r && !old(self).tap.writable ==> final(self).metrics == (NetMetrics {
                tx_fails: bump(old(self).metrics.tx_fails, 1),
                ..old(self).metrics
            }),
    {
        let ghost f = self.tx.frame_buf@.subrange(0, len as int);
        let mut ns_slot = self.mmds_ns.take();
        let mut taken = false;
        if let Some(mut ns) = ns_slot {
            if len >= VNET_HDR_LEN {
                taken = ns.detour_frame(&self.tx.frame_buf, VNET_HDR_LEN, len);
                assert(f.subrange(VNET_HDR_LEN as int, len as int) =~= self.tx.frame_buf@.subrange(
                    VNET_HDR_LEN as int,
                    len as int,
                ));
            }
            ns_slot = Some(ns);
        }
        self.mmds_ns = ns_slot;
        if taken {
            self.metrics.mmds_rx_accepted = add_count(self.metrics.mmds_rx_accepted, 1);
            self.tx.rate_limiter.manual_replenish(charged_bytes, TokenType::Bytes);
            self.tx.rate_limiter.manual_replenish(1, TokenType::Ops);
            return true;
        }
        match self.tap.write(&self.tx.frame_buf, len) {
            Ok(_) => {
                self.metrics.tx_bytes_count = add_count(self.metrics.tx_bytes_count, len as u64);
                self.metrics.tx_packets_count = add_count(self.metrics.tx_packets_count, 1);
            },
            Err(_) => {
                self.metrics.tx_fails = add_count(self.metrics.tx_fails, 1);
            },
        }
        false
    }

    /// For the transmit chain at position `p`: where its readable part ends
    /// and the length it declares.
    fn tx_chain_extent(&self, p: usize) -> (r: (usize, u64))
        requires
            self.wf(),
            p < self.tx.queue.avail@.len(),
        ensures
            r.0 == readable_end(self.tx.queue.chain(p as int), 0),
            r.1 == tx_declared(self.tx.queue.chain(p as int)),
    {
        let ghost descs = self.tx.queue.chain(p as int);
        let nd = self.tx.queue.avail[p].descs.len();
        assert(descs.len() <= self.tx.queue.max_size);
        let mut k: usize = 0;
        let mut read_count: u64 = 0;
        while k < nd && !self.tx.queue.avail[p].descs[k].write_only
            invariant
                nd == descs.len(),
                nd <= 0xffff,
                k <= nd,
                p < self.tx.queue.avail@.len(),
                self.tx.queue.avail@[p as int].descs@ == descs,
                readable_end(descs, k as int) == readable_end(descs, 0),
                read_count == declared_len(descs, k as int),
            decreases nd - k,
        {
            proof {
                lemma_declared_bound(descs, k as int + 1);
            }
            read_count = read_count + self.tx.queue.avail[p].descs[k].len as u64;
            k += 1;
        }
        (k, read_count)
    }

    /// Reads the readable part (`..k`) of the transmit chain at position `p`
    /// from guest memory into the transmit staging buffer. Returns the
    /// frame's length.
    fn tx_read_frame(&mut self, p: usize, k: usize) -> (r: usize)
        requires
            old(self).wf(),
            p < old(self).tx.queue.avail@.len(),
            k == readable_end(old(self).tx.queue.chain(p as int), 0),
        ensures
            final(self).wf(),
            r <= MAX_BUFFER_SIZE,
            view(*final(self)) == (crate::model::HView {
                metrics: if crate::model::tx_gather_fails(old(self).tx.queue.chain(p as int), 0, k as int, old(self).mem@) {
                    NetMetrics { tx_fails: bump(old(self).metrics.tx_fails, 1), ..old(self).metrics }
                } else {
                    old(self).metrics
                },
                ..view(*old(self))
            }),
            final(self).tx.frame_buf@.subrange(0, r as int) == tx_frame(
                old(self).tx.queue.chain(p as int),
                old(self).mem@,
            ),
            final(self).tx.frame_buf@.len() == MAX_BUFFER_SIZE,
            final(self).rx == old(self).rx,
            final(self).mem == old(self).mem,
            final(self).tap == old(self).tap,
            final(self).mmds_ns == old(self).mmds_ns,
            final(self).tx.queue == old(self).tx.queue,
            final(self).tx.rate_limiter == old(self).tx.rate_limiter,
            final(self).tx.used_desc_heads == old(self).tx.used_desc_heads,
            final(self).interrupt_status == old(self).interrupt_status,
            final(self).interrupt_evt == old(self).interrupt_evt,
            final(self).acked_features == old(self).acked_features,
            final(self).frames_read == old(self).frames_read,
            final(self).rx_used_base == old(self).rx_used_base,
            final(self).irq_signals == old(self).irq_signals,
    {
        let ghost descs = self.tx.queue.chain(p as int);
        let ghost mem = self.mem@;
        let ghost goal = tx_frame(descs, mem);
        proof {
            lemma_readable_end_bound(descs, 0);
        }
        let mut read_count: usize = 0;
        let mut i: usize = 0;
        assert(self.tx.frame_buf@.subrange(0, 0) =~= Seq::<u8>::empty());
        loop
            invariant_except_break
                i <= k,
                tx_gather(descs, i as int, k as int, self.tx.frame_buf@.subrange(0, read_count as int), mem) == goal,
                crate::model::tx_gather_fails(descs, i as int, k as int, mem) == crate::model::tx_gather_fails(descs, 0, k as int, mem),
                self.metrics == old(self).metrics,
            invariant
                self.wf(),
                k <= descs.len(),
                read_count <= MAX_BUFFER_SIZE,
                p < self.tx.queue.avail@.len(),
                self.tx.queue.avail@[p as int].descs@ == descs,
                self.mem@ == mem,
                self.rx == old(self).rx,
                self.mem == old(self).mem,
                self.tap == old(self).tap,
                self.mmds_ns == old(self).mmds_ns,
                self.tx.queue == old(self).tx.queue,
                self.tx.queue_evt == old(self).tx.queue_evt,
                self.tx.rate_limiter == old(self).tx.rate_limiter,
                self.tx.used_desc_heads == old(self).tx.used_desc_heads,
                self.interrupt_status == old(self).interrupt_status,
                self.interrupt_evt == old(self).interrupt_evt,
                self.acked_features == old(self).acked_features,
                self.frames_read == old(self).frames_read,
                self.rx_used_base == old(self).rx_used_base,
                self.irq_signals == old(self).irq_signals,
            ensures
                self.tx.frame_buf@.subrange(0, read_count as int) == goal,
                self.metrics == (if crate::model::tx_gather_fails(descs, 0, k as int, mem) {
                    NetMetrics { tx_fails: bump(old(self).metrics.tx_fails, 1), ..old(self).metrics }
                } else {
                    old(self).metrics
                }),
            decreases k - i,
        {
            if i >= k {
                break;
            }
            let d = self.tx.queue.avail[p].descs[i];
            let limit = if (d.len as usize) <= MAX_BUFFER_SIZE - read_count {
                read_count + d.len as usize
            } else {
                MAX_BUFFER_SIZE
            };
            let ghost acc = self.tx.frame_buf@.subrange(0, read_count as int);
            match self.mem.read_slice_at_addr(&mut self.tx.frame_buf, read_count, limit, d.addr) {
                Ok(sz) => {
                    proof {
                        assert(self.tx.frame_buf@.subrange(0, read_count + sz) =~= acc + mem.subrange(
                            d.addr as int,
                            d.addr + sz,
                        ));
                    }
                    read_count = read_count + sz;
                },
                Err(_) => {
                    self.metrics.tx_fails = add_count(self.metrics.tx_fails, 1);
                    break;
                },
            }
            i += 1;
        }
        read_count
    }

    /// Sends the transmit chains the driver has made available, in order,
    /// until none is left or the transmit limiter has no budget for the next
    /// one (which is then left available for a later pass). Every chain taken
    /// is completed, with length zero, after the pass. If the metadata
    /// endpoint took a frame and no received frame is deferred, a receive
    /// pass follows to deliver its answer.
    pub fn process_tx(&mut self)
        requires
            old(self).wf(),
            !old(self).rx.deferred_irqs,
        ensures
            view(*final(self)) == crate::model::tx_process(view(*old(self))),
            final(self).wf(),
            rx_pass(*old(self), *final(self)),
            mmds_addr_kept(*old(self), *final(self)),
            final(self).tap.writable == old(self).tap.writable,
            tx_pass(*old(self), *final(self)),
    {
        let ghost n0 = self.tx.queue.next_avail as int;
        let ghost q0 = self.tx.queue;
        let ghost mem0 = self.mem@;
        let mut rate_limited = false;
        let mut process_rx_for_mmds = false;
        self.tx.used_desc_heads.clear();
        let ghost v0 = view(*self);
        let ghost run = crate::model::tx_run(v0);
        let ghost mut took: bool = false;
        assert(q0.used@ + tx_completions(q0, n0, n0) =~= q0.used@);
        assert(crate::tap::frames_of(self.tap.outgoing@) =~= crate::tap::frames_of(old(self).tap.outgoing@)
            + tx_sent(q0, n0, n0, mem0, old(self).mmds_ns, old(self).tap.writable));
        loop
            invariant_except_break
                !rate_limited,
                self.tx.queue.next_avail == n0 + self.tx.used_desc_heads@.len(),
                crate::model::tx_run(tx_adjusted(*self, q0, n0, self.tx.used_desc_heads@.len() as int)).0 == run.0,
                (took || crate::model::tx_run(tx_adjusted(*self, q0, n0, self.tx.used_desc_heads@.len() as int)).1) == run.1,
            invariant
                self.wf(),
                v0 == view(*old(self)),
                process_rx_for_mmds == (!old(self).rx.deferred_frame && took),
                n0 <= self.tx.queue.next_avail,
                self.tx.queue == (Queue { next_avail: self.tx.queue.next_avail, ..q0 }),
                self.tx.used_desc_heads@ == Seq::new(
                    self.tx.used_desc_heads@.len(),
                    |j: int| q0.avail@[n0 + j].index,
                ),
                rate_limited ==> self.tx.queue.next_avail == n0 + self.tx.used_desc_heads@.len() + 1
                    && self.tx.rate_limiter.blocked && !can_charge(
                    self.tx.rate_limiter,
                    tx_declared(q0.chain(self.tx.queue.next_avail - 1)) as u64,
                ),
                crate::tap::frames_of(self.tap.outgoing@) == crate::tap::frames_of(
                    old(self).tap.outgoing@,
                ) + tx_sent(
                    q0,
                    n0,
                    n0 + self.tx.used_desc_heads@.len(),
                    mem0,
                    old(self).mmds_ns,
                    old(self).tap.writable,
                ),
                self.rx == old(self).rx,
                self.mem == old(self).mem,
                self.mem@ == mem0,
                self.tap.incoming == old(self).tap.incoming,
                self.tap.writable == old(self).tap.writable,
                mmds_addr_kept(*old(self), *self),
                (old(self).mmds_ns is Some) == (self.mmds_ns is Some),
                self.acked_features == old(self).acked_features,
                self.frames_read == old(self).frames_read,
                self.rx_used_base == old(self).rx_used_base,
                self.irq_signals == old(self).irq_signals,
                process_rx_for_mmds == (!old(self).rx.deferred_frame && tx_any_to_mmds(
                    q0,
                    n0,
                    n0 + self.tx.used_desc_heads@.len(),
                    mem0,
                    old(self).mmds_ns,
                )),
            ensures
                !rate_limited ==> self.tx.queue.next_avail == n0 + self.tx.used_desc_heads@.len()
                    && !self.tx.queue.has_avail(),
                tx_adjusted(*self, q0, n0, self.tx.used_desc_heads@.len() as int) == run.0,
                took == run.1,
            decreases self.tx.queue.avail@.len() - self.tx.queue.next_avail,
        {
            let next = self.tx.queue.next_chain();
            let p = match next {
                None => break,
                Some(p) => p,
            };
            let head_index = self.tx.queue.avail[p].index;
            let (k, declared) = self.tx_chain_extent(p);
            if !self.tx.rate_limiter.consume_frame(declared) {
                rate_limited = true;
                break;
            }
            let ghost qb = self.tx.queue;
            let ghost vc = view(*self);
            let len = self.tx_read_frame(p, k);
            let ghost f = self.tx.frame_buf@.subrange(0, len as int);
            let ghost sent_before = crate::tap::frames_of(self.tap.outgoing@);
            let ghost ns_before = self.mmds_ns;
            let taken = self.write_to_mmds_or_tap(len, declared);
            if taken && !self.rx.deferred_frame {
                process_rx_for_mmds = true;
            }
            proof {
                let cnt = self.tx.used_desc_heads@.len() as int;
                assert(p == n0 + cnt);
                assert(goes_to_mmds(ns_before, f) == goes_to_mmds(old(self).mmds_ns, f));
                assert(q0.chain(p as int) == qb.chain(p as int));
                assert(f == tx_frame(q0.chain(p as int), mem0));
                let w = old(self).tap.writable;
                let prevs = tx_sent(q0, n0, p as int, mem0, old(self).mmds_ns, w);
                assert(tx_sent(q0, n0, p + 1, mem0, old(self).mmds_ns, w) == (if w && !goes_to_mmds(
                    old(self).mmds_ns,
                    f,
                ) {
                    prevs.push(f)
                } else {
                    prevs
                }));
                if w && !taken {
                    assert(crate::tap::frames_of(self.tap.outgoing@) == sent_before.push(f));
                    assert(crate::tap::frames_of(old(self).tap.outgoing@) + prevs.push(f) =~= (
                    crate::tap::frames_of(old(self).tap.outgoing@) + prevs).push(f));
                }
            }
            self.tx.used_desc_heads.push(head_index);
            proof {
                let cnt = self.tx.used_desc_heads@.len() as int;
                assert(q0.used@ + tx_completions(q0, n0, n0 + cnt) =~= (q0.used@ + tx_completions(q0, n0, n0 + cnt - 1)).push(
                    UsedElem { id: q0.avail@[n0 + cnt - 1].index, len: 0 }));
                took = took || taken;
                assert(self.tx.used_desc_heads@ =~= Seq::new(
                    self.tx.used_desc_heads@.len(),
                    |j: int| q0.avail@[n0 + j].index,
                ));
                assert(crate::tap::frames_of(self.tap.outgoing@) =~= crate::tap::frames_of(
                    old(self).tap.outgoing@,
                ) + tx_sent(q0, n0, n0 + cnt, mem0, old(self).mmds_ns, old(self).tap.writable));
            }
        }
        if rate_limited {
            self.tx.queue.go_to_previous_position();
        }
        let ghost u0 = self.tx.queue.used@;
        assert(tx_adjusted(*self, q0, n0, self.tx.used_desc_heads@.len() as int) == run.0);
        let count = self.tx.used_desc_heads.len();
        let mut j: usize = 0;
        while j < count
            invariant
                self.wf(),
                j <= count,
                count == self.tx.used_desc_heads@.len(),
                self.tx.queue.next_avail == n0 + count,
                self.tx.queue.avail == q0.avail,
                self.tx.queue.max_size == q0.max_size,
                self.tx.used_desc_heads@ == Seq::new(count as nat, |x: int| q0.avail@[n0 + x].index),
                self.tx.queue.used@ == u0 + tx_completions(q0, n0, n0 + j),
                u0 == q0.used@,
                self.rx == old(self).rx,
                self.mem == old(self).mem,
                self.tap.incoming == old(self).tap.incoming,
                self.tap.writable == old(self).tap.writable,
                crate::tap::frames_of(self.tap.outgoing@) == crate::tap::frames_of(
                    old(self).tap.outgoing@,
                ) + tx_sent(q0, n0, n0 + count, mem0, old(self).mmds_ns, old(self).tap.writable),
                mmds_addr_kept(*old(self), *self),
                (old(self).mmds_ns is Some) == (self.mmds_ns is Some),
                self.acked_features == old(self).acked_features,
                self.frames_read == old(self).frames_read,
                self.rx_used_base == old(self).rx_used_base,
                self.irq_signals == old(self).irq_signals,
                process_rx_for_mmds == (!old(self).rx.deferred_frame && tx_any_to_mmds(
                    q0,
                    n0,
                    n0 + count,
                    mem0,
                    old(self).mmds_ns,
                )),
                !self.tx.queue.has_avail() || (self.tx.rate_limiter.blocked && !can_charge(
                    self.tx.rate_limiter,
                    tx_declared(q0.chain(self.tx.queue.next_avail as int)) as u64,
                )),
                tx_adjusted(*self, q0, n0, count as int) == run.0,
                took == run.1,
                v0 == view(*old(self)),
                process_rx_for_mmds == (!old(self).rx.deferred_frame && took),
            decreases count - j,
        {
            let h = self.tx.used_desc_heads[j];
            self.tx.queue.add_used(h, 0);
            j += 1;
            assert(self.tx.queue.used@ =~= u0 + tx_completions(q0, n0, n0 + j));
        }
        assert(view(*self) =~= tx_adjusted(*self, q0, n0, count as int));
        proof {
            lemma_taken_refl(old(self).tap);
            assert(self.rx.queue.used@.subrange(0, old(self).rx.queue.used@.len() as int)
                =~= old(self).rx.queue.used@);
        }
        if process_rx_for_mmds {
            let ghost mid = *self;
            self.process_rx();
            proof {
                lemma_taken_trans(old(self).tap, mid.tap, self.tap);
            }
        }
    }

    /// Between events: well formed, with no completion left unsignalled.
    pub open spec fn at_rest(&self) -> bool {
        self.wf() && !self.rx.deferred_irqs
    }

    /// Handles one event of the device.
    pub fn handle_event(&mut self, device_event: u32)
        requires
            old(self).at_rest(),
            device_event < NET_EVENTS_COUNT,
        ensures
            view(*final(self)) == crate::model::event(view(*old(self)), device_event),
            final(self).at_rest(),
            rx_pass(*old(self), *final(self)),
            final(self).irq_signals@ == old(self).irq_signals@ + (if final(self).rx.queue.used@.len()
                > old(self).rx.queue.used@.len() {
                1int
            } else {
                0int
            }),
            device_event != TX_QUEUE_EVENT && device_event != TX_RATE_LIMITER_EVENT ==> final(self).tx
                == old(self).tx && final(self).tap.outgoing == old(self).tap.outgoing,
            device_event == RX_TAP_EVENT && !old(self).rx.rate_limiter.blocked
                && !final(self).rx.deferred_frame ==> rx_sources_idle(*final(self))
                || last_tap_read_failed(old(self).tap, final(self).tap),
            device_event == TX_QUEUE_EVENT && !old(self).tx.rate_limiter.blocked ==> tx_pass(
                *old(self),
                *final(self),
            ),
            device_event == TX_RATE_LIMITER_EVENT && old(self).tx.rate_limiter.blocked ==> tx_pass(
                *old(self),
                *final(self),
            ),
            device_event == TX_QUEUE_EVENT && old(self).tx.rate_limiter.blocked ==> final(self).tx.queue
                == old(self).tx.queue && final(self).tap.outgoing == old(self).tap.outgoing,
            device_event == TX_RATE_LIMITER_EVENT && !old(self).tx.rate_limiter.blocked ==> final(self).tx
                == old(self).tx && final(self).tap.outgoing == old(self).tap.outgoing,
            device_event == RX_TAP_EVENT && !old(self).rx.rate_limiter.blocked
                && final(self).rx.deferred_frame ==> !final(self).rx.queue.has_avail() || !can_charge(
                final(self).rx.rate_limiter,
                final(self).rx.bytes_read as u64,
            ),
            device_event == RX_TAP_EVENT && old(self).rx.rate_limiter.blocked ==> final(self).rx
                == old(self).rx && final(self).tap == old(self).tap && final(self).mem == old(self).mem,
            device_event != TX_QUEUE_EVENT && device_event != TX_RATE_LIMITER_EVENT
                && old(self).rx.deferred_frame && final(self).rx.queue.used@.len()
                == old(self).rx.queue.used@.len() ==> final(self).rx.deferred_frame
                && final(self).tap.incoming == old(self).tap.incoming,
            (device_event == RX_QUEUE_EVENT && !old(self).rx.rate_limiter.blocked) || (device_event
                == RX_RATE_LIMITER_EVENT && old(self).rx.rate_limiter.blocked) ==> (
            !final(self).rx.deferred_frame ==> !old(self).rx.deferred_frame || rx_sources_idle(*final(self))
                || last_tap_read_failed(old(self).tap, final(self).tap)),
    {
        proof {
            lemma_taken_refl(old(self).tap);
            assert(self.rx.queue.used@.subrange(0, old(self).rx.queue.used@.len() as int)
                =~= old(self).rx.queue.used@);
        }
        if device_event == RX_TAP_EVENT {
            self.metrics.rx_tap_event_count = add_count(self.metrics.rx_tap_event_count, 1);
            if self.rx.rate_limiter.is_blocked() {
                return;
            }
            if self.rx.deferred_frame {
                let d = self.rate_limited_rx_single_frame();
                match d {
                    RxDelivery::Delivered | RxDelivery::Dropped => {
                        self.rx.deferred_frame = false;
                    },
                    _ => {
                        proof {
                            assert(self.rx.queue.used@.subrange(0, old(self).rx.queue.used@.len() as int)
                                =~= old(self).rx.queue.used@);
                        }
                        if self.rx.deferred_irqs {
                            self.rx.deferred_irqs = false;
                            self.signal_used_queue();
                        }
                        return;
                    },
                }
            }
            let ghost mid = *self;
            self.process_rx();
            proof {
                lemma_taken_trans(old(self).tap, mid.tap, self.tap);
                assert(mid.rx.queue.used@.subrange(0, old(self).rx.queue.used@.len() as int)
                    =~= old(self).rx.queue.used@);
                assert(self.rx.queue.used@.subrange(0, old(self).rx.queue.used@.len() as int)
                    =~= old(self).rx.queue.used@);
            }
        } else if device_event == RX_QUEUE_EVENT {
            self.metrics.rx_queue_event_count = add_count(self.metrics.rx_queue_event_count, 1);
            if self.rx.queue_evt.read().is_err() {
                self.metrics.event_fails = add_count(self.metrics.event_fails, 1);
            }
            if !self.rx.rate_limiter.is_blocked() {
                let ghost mid = *self;
                self.resume_rx();
                proof {
                    lemma_taken_trans(old(self).tap, mid.tap, self.tap);
                }
            }
        } else if device_event == TX_QUEUE_EVENT {
            self.metrics.tx_queue_event_count = add_count(self.metrics.tx_queue_event_count, 1);
            if self.tx.queue_evt.read().is_err() {
                self.metrics.event_fails = add_count(self.metrics.event_fails, 1);
            }
            if !self.tx.rate_limiter.is_blocked() {
                let ghost mid = *self;
                self.process_tx();
                proof {
                    lemma_taken_trans(old(self).tap, mid.tap, self.tap);
                }
            }
        } else if device_event == RX_RATE_LIMITER_EVENT {
            self.metrics.rx_event_rate_limiter_count = add_count(
                self.metrics.rx_event_rate_limiter_count,
                1,
            );
            match self.rx.rate_limiter.event_handler() {
                Ok(_) => {
                    let ghost mid = *self;
                    self.resume_rx();
                    proof {
                        lemma_taken_trans(old(self).tap, mid.tap, self.tap);
                    }
                },
                Err(_) => {
                    self.metrics.event_fails = add_count(self.metrics.event_fails, 1);
                },
            }
        } else {
            self.metrics.tx_rate_limiter_event_count = add_count(
                self.metrics.tx_rate_limiter_event_count,
                1,
            );
            match self.tx.rate_limiter.event_handler() {
                Ok(_) => {
                    let ghost mid = *self;
                    self.process_tx();
                    proof {
                        lemma_taken_trans(old(self).tap, mid.tap, self.tap);
                    }
                },
                Err(_) => {
                    self.metrics.event_fails = add_count(self.metrics.event_fails, 1);
                },
            }
        }
    }
}

pub proof fn lemma_readable_end_bound(descs: Seq<Descriptor>, i: int)
    requires
        0 <= i <= descs.len(),
    ensures
        i <= readable_end(descs, i) <= descs.len(),
    decreases descs.len() - i,
{
    if i < descs.len() && !descs[i].write_only {
        lemma_readable_end_bound(descs, i + 1);
    }
}

} // verus!
