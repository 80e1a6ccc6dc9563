//! A virtqueue as the device sees it: descriptor chains made available by
//! the driver, consumed in order, and completions on the used ring.

use vstd::prelude::*;

verus! {

/// One buffer of a descriptor chain.
#[derive(Clone, Copy, Debug, PartialEq, Eq, Structural)]
pub struct Descriptor {
    pub addr: u64,
    pub len: u32,
    /// Device-writable (a receive buffer) rather than device-readable.
    pub write_only: bool,
}

/// A chain of descriptors, named by the index of its head.
pub struct DescriptorChain {
    pub index: u16,
    pub descs: Vec<Descriptor>,
}

/// A completion: the head index of a chain and how many bytes were written into it.
#[derive(Clone, Copy, Debug, PartialEq, Eq, Structural)]
pub struct UsedElem {
    pub id: u16,
    pub len: u32,
}

pub struct Queue {
    pub max_size: u16,
    /// Every chain the driver has made available so far, in order.
    pub avail: Vec<DescriptorChain>,
    /// Position in `avail` of the next chain to hand out.
    pub next_avail: usize,
    /// The used ring.
    pub used: Vec<UsedElem>,
}

impl Queue {
    pub open spec fn wf(&self) -> bool {
        &&& self.next_avail <= self.avail@.len()
        &&& forall|i: int|
            0 <= i < self.avail@.len() ==> #[trigger] self.avail@[i].descs@.len() <= self.max_size
    }

    /// The chain at position `i` of the available ring.
    pub open spec fn chain(&self, i: int) -> Seq<Descriptor> {
        self.avail@[i].descs@
    }

    /// Whether a chain is waiting to be handed out.
    pub open spec fn has_avail(&self) -> bool {
        self.next_avail < self.avail@.len()
    }

    /// An empty queue of the given maximum size.
    pub fn new(max_size: u16) -> (r: Queue)
        ensures
            r.wf(),
            r.max_size == max_size,
            r.avail@.len() == 0,
            r.next_avail == 0,
            r.used@.len() == 0,
    {
        Queue { max_size, avail: Vec::new(), next_avail: 0, used: Vec::new() }
    }

    pub fn get_max_size(&self) -> (r: u16)
        ensures
            r == self.max_size,
    {
        self.max_size
    }

    /// The driver makes a chain available. A chain longer than the queue is
    /// refused and the queue is left as it was.
    pub fn push_avail(&mut self, index: u16, descs: Vec<Descriptor>) -> (r: bool)
        requires
            old(self).wf(),
        ensures
            final(self).wf(),
            r == (descs@.len() <= old(self).max_size),
            final(self).max_size == old(self).max_size,
            final(self).next_avail == old(self).next_avail,
            final(self).used@ == old(self).used@,
            r ==> final(self).avail@.len() == old(self).avail@.len() + 1
                && final(self).avail@.last().index == index
                && final(self).avail@.last().descs@ == descs@
                && forall|i: int| 0 <= i < old(self).avail@.len() ==> #[trigger] final(self).avail@[i] == old(self).avail@[i],
            !r ==> final(self).avail@ == old(self).avail@,
    {
        if descs.len() > self.max_size as usize {
            return false;
        }
        self.avail.push(DescriptorChain { index, descs });
        true
    }

    /// Hands out the next available chain by its position in `avail`, or
    /// `None` when the driver has made none available.
    pub fn next_chain(&mut self) -> (r: Option<usize>)
        requires
            old(self).wf(),
        ensures
            final(self).wf(),
            r is None <==> !old(self).has_avail(),
            r is None ==> *final(self) == *old(self),
            r matches Some(p) ==> p == old(self).next_avail && final(self).next_avail == p + 1,
            r matches Some(p) ==> *final(self) == (Queue {
                next_avail: (p + 1) as usize,
                ..*old(self)
            }),
    {
        if self.next_avail < self.avail.len() {
            let p = self.next_avail;
            self.next_avail = p + 1;
            Some(p)
        } else {
            None
        }
    }

    /// Steps back by one chain so that the last one handed out is handed out again.
    pub fn go_to_previous_position(&mut self)
        requires
            old(self).wf(),
            old(self).next_avail > 0,
        ensures
            final(self).wf(),
            *final(self) == (Queue { next_avail: (old(self).next_avail - 1) as usize, ..*old(self) }),
    {
        self.next_avail = self.next_avail - 1;
    }

    /// Puts a completion on the used ring.
    pub fn add_used(&mut self, id: u16, len: u32)
        requires
            old(self).wf(),
        ensures
            final(self).wf(),
            final(self).used@ == old(self).used@.push(UsedElem { id, len }),
            final(self).avail == old(self).avail,
            final(self).next_avail == old(self).next_avail,
            final(self).max_size == old(self).max_size,
    {
        self.used.push(UsedElem { id, len });
    }
}

} // verus!
