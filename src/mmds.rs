//! The metadata service endpoint: decides which guest frames are addressed
//! to it, answers ARP requests for its address, and queues the frames it has
//! for the guest.

use vstd::prelude::*;

verus! {

pub const ETH_HDR_LEN: usize = 14;
pub const ARP_FRAME_LEN: usize = 42;
pub const IPV4_DST_END: usize = 34;

/// Ethernet frame carries ARP.
pub open spec fn is_arp(f: Seq<u8>) -> bool {
    f.len() >= ARP_FRAME_LEN && f[12] == 0x08u8 && f[13] == 0x06u8
}

/// Ethernet frame carries IPv4.
pub open spec fn is_ipv4(f: Seq<u8>) -> bool {
    f.len() >= IPV4_DST_END && f[12] == 0x08u8 && f[13] == 0x00u8
}

/// ARP request (operation 1).
pub open spec fn is_arp_request(f: Seq<u8>) -> bool {
    is_arp(f) && f[20] == 0u8 && f[21] == 1u8
}

/// The frame's target protocol address (ARP) or destination address (IPv4) is `ip`.
pub open spec fn addressed_to(f: Seq<u8>, ip: Seq<u8>) -> bool {
    ||| is_arp(f) && f.subrange(38, 42) == ip
    ||| is_ipv4(f) && f.subrange(30, 34) == ip
}

/// The ARP reply that tells the sender of `req` that `ip` is at `mac`.
pub open spec fn arp_reply(req: Seq<u8>, mac: Seq<u8>, ip: Seq<u8>) -> Seq<u8> {
    req.subrange(22, 28) + mac + seq![0x08u8, 0x06u8, 0u8, 1u8, 0x08u8, 0u8, 6u8, 4u8, 0u8, 2u8]
        + mac + ip + req.subrange(22, 28) + req.subrange(28, 32)
}

pub struct MmdsNetworkStack {
    pub mac: [u8; 6],
    pub ipv4_addr: [u8; 4],
    /// Frames taken from the guest, in order.
    pub received: Vec<Vec<u8>>,
    /// Frames waiting to go to the guest, in order.
    pub pending: Vec<Vec<u8>>,
}

impl MmdsNetworkStack {
    /// The default endpoint: 169.254.169.254 at 06:01:23:45:67:01.
    pub fn new_with_defaults() -> (r: MmdsNetworkStack)
        ensures
            r.mac@ == seq![6u8, 1u8, 0x23u8, 0x45u8, 0x67u8, 1u8],
            r.ipv4_addr@ == seq![169u8, 254u8, 169u8, 254u8],
            r.received@.len() == 0,
            r.pending@.len() == 0,
    {
        let r = MmdsNetworkStack {
            mac: [6u8, 1u8, 0x23u8, 0x45u8, 0x67u8, 1u8],
            ipv4_addr: [169u8, 254u8, 169u8, 254u8],
            received: Vec::new(),
            pending: Vec::new(),
        };
        assert(r.mac@ =~= seq![6u8, 1u8, 0x23u8, 0x45u8, 0x67u8, 1u8]);
        assert(r.ipv4_addr@ =~= seq![169u8, 254u8, 169u8, 254u8]);
        r
    }

    /// Queues a frame for the guest.
    pub fn push_pending(&mut self, frame: Vec<u8>)
        ensures
            final(self).pending@ == old(self).pending@.push(frame),
            final(self).received == old(self).received,
            final(self).mac == old(self).mac,
            final(self).ipv4_addr == old(self).ipv4_addr,
    {
        self.pending.push(frame);
    }

    fn ip_at(&self, buf: &Vec<u8>, at: usize) -> (r: bool)
        requires
            at + 4 <= buf@.len(),
        ensures
            r == (buf@.subrange(at as int, at + 4) == self.ipv4_addr@),
    {
        let _len = buf.len();
        let r = buf[at] == self.ipv4_addr[0] && buf[at + 1] == self.ipv4_addr[1] && buf[at + 2]
            == self.ipv4_addr[2] && buf[at + 3] == self.ipv4_addr[3];
        proof {
            let w = buf@.subrange(at as int, at + 4);
            if r {
                assert(w =~= self.ipv4_addr@);
            } else if w == self.ipv4_addr@ {
                assert(w[0] == buf@[at as int] && w[1] == buf@[at + 1]);
                assert(w[2] == buf@[at + 2] && w[3] == buf@[at + 3]);
            }
        }
        r
    }

    /// Whether the Ethernet frame `buf[from..to]` is addressed to this endpoint.
    pub fn accepts(&self, buf: &Vec<u8>, from: usize, to: usize) -> (r: bool)
        requires
            from <= to <= buf@.len(),
        ensures
            r == addressed_to(buf@.subrange(from as int, to as int), self.ipv4_addr@),
    {
        let ghost f = buf@.subrange(from as int, to as int);
        let len = to - from;
        if len >= ARP_FRAME_LEN && buf[from + 12] == 0x08u8 && buf[from + 13] == 0x06u8 {
            let r = self.ip_at(buf, from + 38);
            assert(f.subrange(38, 42) =~= buf@.subrange(from + 38, from + 42));
            assert(!is_ipv4(f));
            return r;
        }
        if len >= IPV4_DST_END && buf[from + 12] == 0x08u8 && buf[from + 13] == 0x00u8 {
            let r = self.ip_at(buf, from + 30);
            assert(f.subrange(30, 34) =~= buf@.subrange(from + 30, from + 34));
            return r;
        }
        false
    }

    /// Offers the Ethernet frame `buf[from..to]` to the endpoint. A frame
    /// addressed to it is taken (and an ARP request for its address is
    /// answered); any other frame is left to the caller.
    pub fn detour_frame(&mut self, buf: &Vec<u8>, from: usize, to: usize) -> (r: bool)
        requires
            from <= to <= buf@.len(),
        ensures
            r == addressed_to(buf@.subrange(from as int, to as int), old(self).ipv4_addr@),
            final(self).mac == old(self).mac,
            final(self).ipv4_addr == old(self).ipv4_addr,
            !r ==> final(self).received == old(self).received && final(self).pending == old(self).pending,
            r ==> crate::tap::frames_of(final(self).received@) == crate::tap::frames_of(old(self).received@).push(buf@.subrange(from as int, to as int)),
            r && is_arp_request(buf@.subrange(from as int, to as int)) ==> crate::tap::frames_of(final(self).pending@)
                == crate::tap::frames_of(old(self).pending@).push(arp_reply(buf@.subrange(from as int, to as int), old(self).mac@, old(self).ipv4_addr@)),
            r && !is_arp_request(buf@.subrange(from as int, to as int)) ==> final(self).pending == old(self).pending,
    {
        if !self.accepts(buf, from, to) {
            return false;
        }
        let ghost f = buf@.subrange(from as int, to as int);
        let frame = crate::tap::copy_range(buf, from, to);
        self.received.push(frame);
        assert(crate::tap::frames_of(self.received@) =~= crate::tap::frames_of(old(self).received@).push(f));
        if to - from >= ARP_FRAME_LEN && buf[from + 12] == 0x08u8 && buf[from + 13] == 0x06u8
            && buf[from + 20] == 0u8 && buf[from + 21] == 1u8 {
            let reply = self.arp_reply_for(buf, from);
            assert(f.subrange(22, 28) =~= buf@.subrange(from as int, from + ARP_FRAME_LEN).subrange(22, 28));
            assert(f.subrange(28, 32) =~= buf@.subrange(from as int, from + ARP_FRAME_LEN).subrange(28, 32));
            self.pending.push(reply);
            assert(crate::tap::frames_of(self.pending@) =~= crate::tap::frames_of(old(self).pending@).push(arp_reply(f, self.mac@, self.ipv4_addr@)));
        }
        true
    }

    fn arp_reply_for(&self, buf: &Vec<u8>, from: usize) -> (r: Vec<u8>)
        requires
            from + ARP_FRAME_LEN <= buf@.len(),
        ensures
            r@ == arp_reply(buf@.subrange(from as int, from + ARP_FRAME_LEN), self.mac@, self.ipv4_addr@),
    {
        let blen = buf.len();
        let ghost req = buf@.subrange(from as int, from + ARP_FRAME_LEN);
        let mut r: Vec<u8> = Vec::with_capacity(ARP_FRAME_LEN);
        let mut i: usize = 0;
        while i < 6
            invariant
                from + ARP_FRAME_LEN <= blen,
                blen == buf@.len(),
                req == buf@.subrange(from as int, from + ARP_FRAME_LEN),
                i <= 6,
                r@ == req.subrange(22, 22 + i),
            decreases 6 - i,
        {
            r.push(buf[from + 22 + i]);
            i += 1;
            assert(r@ =~= req.subrange(22, 22 + i));
        }
        let mut i: usize = 0;
        while i < 6
            invariant
                i <= 6,
                r@ == req.subrange(22, 28) + self.mac@.subrange(0, i as int),
            decreases 6 - i,
        {
            r.push(self.mac[i]);
            i += 1;
            assert(r@ =~= req.subrange(22, 28) + self.mac@.subrange(0, i as int));
        }
        let fixed: [u8; 10] = [0x08u8, 0x06u8, 0u8, 1u8, 0x08u8, 0u8, 6u8, 4u8, 0u8, 2u8];
        let ghost head = req.subrange(22, 28) + self.mac@;
        assert(self.mac@.subrange(0, 6) =~= self.mac@);
        let mut i: usize = 0;
        while i < 10
            invariant
                i <= 10,
                fixed@ == seq![0x08u8, 0x06u8, 0u8, 1u8, 0x08u8, 0u8, 6u8, 4u8, 0u8, 2u8],
                r@ == head + fixed@.subrange(0, i as int),
            decreases 10 - i,
        {
            r.push(fixed[i]);
            i += 1;
            assert(r@ =~= head + fixed@.subrange(0, i as int));
        }
        assert(fixed@.subrange(0, 10) =~= fixed@);
        let ghost head = head + fixed@;
        let mut i: usize = 0;
        while i < 6
            invariant
                i <= 6,
                r@ == head + self.mac@.subrange(0, i as int),
            decreases 6 - i,
        {
            r.push(self.mac[i]);
            i += 1;
            assert(r@ =~= head + self.mac@.subrange(0, i as int));
        }
        assert(self.mac@.subrange(0, 6) =~= self.mac@);
        let ghost head = head + self.mac@;
        let mut i: usize = 0;
        while i < 4
            invariant
                i <= 4,
                r@ == head + self.ipv4_addr@.subrange(0, i as int),
            decreases 4 - i,
        {
            r.push(self.ipv4_addr[i]);
            i += 1;
            assert(r@ =~= head + self.ipv4_addr@.subrange(0, i as int));
        }
        assert(self.ipv4_addr@.subrange(0, 4) =~= self.ipv4_addr@);
        let ghost head = head + self.ipv4_addr@;
        let mut i: usize = 0;
        while i < 10
            invariant
                from + ARP_FRAME_LEN <= blen,
                blen == buf@.len(),
                req == buf@.subrange(from as int, from + ARP_FRAME_LEN),
                i <= 10,
                r@ == head + req.subrange(22, 22 + i),
            decreases 10 - i,
        {
            r.push(buf[from + 22 + i]);
            i += 1;
            assert(r@ =~= head + req.subrange(22, 22 + i));
        }
        assert(req.subrange(22, 32) =~= req.subrange(22, 28) + req.subrange(28, 32));
        assert(r@ =~= arp_reply(req, self.mac@, self.ipv4_addr@));
        r
    }

    /// Moves the next frame for the guest into `buf[from..]`, truncated to
    /// the room there, and returns its length; `None` when none is waiting.
    pub fn write_next_frame(&mut self, buf: &mut Vec<u8>, from: usize) -> (r: Option<usize>)
        requires
            from <= old(buf)@.len(),
        ensures
            final(self).mac == old(self).mac,
            final(self).ipv4_addr == old(self).ipv4_addr,
            final(self).received == old(self).received,
            final(buf)@.len() == old(buf)@.len(),
            old(self).pending@.len() == 0 ==> r is None && final(self).pending == old(self).pending && final(buf)@ == old(buf)@,
            old(self).pending@.len() > 0 ==> final(self).pending@ == old(self).pending@.drop_first()
                && r == Some(crate::memory::access_len(old(buf)@.len() as int, from as int, old(self).pending@[0]@.len() as int) as usize)
                && final(buf)@ == crate::memory::overwrite(old(buf)@, from as int,
                    old(self).pending@[0]@.subrange(0, r.unwrap() as int)),
    {
        if self.pending.len() == 0 {
            return None;
        }
        let f = self.pending.remove(0);
        let n = if f.len() <= buf.len() - from {
            f.len()
        } else {
            buf.len() - from
        };
        let ghost b0 = buf@;
        let blen = buf.len();
        let mut i: usize = 0;
        while i < n
            invariant
                from <= b0.len(),
                n <= f@.len(),
                from + n <= blen,
                blen == b0.len(),
                buf@.len() == b0.len(),
                i <= n,
                buf@ == crate::memory::overwrite(b0, from as int, f@.subrange(0, i as int)),
            decreases n - i,
        {
            buf.set(from + i, f[i]);
            i += 1;
            assert(buf@ =~= crate::memory::overwrite(b0, from as int, f@.subrange(0, i as int)));
        }
        Some(n)
    }
}

} // verus!
