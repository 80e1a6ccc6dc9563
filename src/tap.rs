//! The host TAP endpoint as the data plane sees it: frames waiting to be
//! read (each a result of one non-blocking read) and frames written.

use vstd::prelude::*;

verus! {

/// The errno of a non-blocking read with nothing to read.
pub const EAGAIN: i32 = 11;

/// The errno of a write the interface could not take.
pub const EIO: i32 = 5;

/// The result of one read from the TAP file descriptor.
pub enum TapRead {
    Frame(Vec<u8>),
    Error(i32),
}

pub struct Tap {
    /// Reads the kernel has ready, in order.
    pub incoming: Vec<TapRead>,
    /// Frames written, in order.
    pub outgoing: Vec<Vec<u8>>,
    /// Whether writes currently succeed.
    pub writable: bool,
}

/// The contents of a sequence of byte vectors.
pub open spec fn frames_of(v: Seq<Vec<u8>>) -> Seq<Seq<u8>> {
    v.map_values(|f: Vec<u8>| f@)
}

/// A copy of `src[from..to]`.
pub fn copy_range(src: &Vec<u8>, from: usize, to: usize) -> (r: Vec<u8>)
    requires
        from <= to <= src@.len(),
    ensures
        r@ == src@.subrange(from as int, to as int),
{
    let mut r: Vec<u8> = Vec::with_capacity(to - from);
    let mut i: usize = from;
    while i < to
        invariant
            from <= i <= to <= src@.len(),
            r@ == src@.subrange(from as int, i as int),
        decreases to - i,
    {
        r.push(src[i]);
        i += 1;
        assert(r@ =~= src@.subrange(from as int, i as int));
    }
    r
}

impl Tap {
    /// Every frame waiting to be read holds at least one byte.
    pub open spec fn wf(&self) -> bool {
        forall|i: int|
            0 <= i < self.incoming@.len() ==> (#[trigger] self.incoming@[i] matches TapRead::Frame(f)
                ==> f@.len() > 0)
    }

    /// A writable TAP endpoint with nothing to read.
    pub fn new() -> (r: Tap)
        ensures
            r.incoming@.len() == 0,
            r.outgoing@.len() == 0,
            r.writable,
            r.wf(),
    {
        Tap { incoming: Vec::new(), outgoing: Vec::new(), writable: true }
    }

    /// Queues a frame for the data plane to read.
    pub fn push_frame(&mut self, frame: Vec<u8>)
        requires
            old(self).wf(),
            frame@.len() > 0,
        ensures
            final(self).wf(),
            final(self).incoming@.len() == old(self).incoming@.len() + 1,
            final(self).incoming@.last() matches TapRead::Frame(f) && f@ == frame@,
            forall|i: int| 0 <= i < old(self).incoming@.len() ==> #[trigger] final(self).incoming@[i] == old(self).incoming@[i],
            final(self).outgoing == old(self).outgoing,
            final(self).writable == old(self).writable,
    {
        self.incoming.push(TapRead::Frame(frame));
    }

    /// Reads one frame into `buf`, truncated to its length. With nothing to
    /// read the result is `EAGAIN`.
    pub fn read(&mut self, buf: &mut Vec<u8>) -> (r: Result<usize, i32>)
        requires
            old(self).wf(),
        ensures
            final(self).wf(),
            r matches Ok(n) ==> n > 0 || old(buf)@.len() == 0,
            final(self).outgoing == old(self).outgoing,
            final(self).writable == old(self).writable,
            old(self).incoming@.len() == 0 ==> r == Err::<usize, i32>(EAGAIN) && *final(self) == *old(self) && final(buf)@ == old(buf)@,
            old(self).incoming@.len() > 0 ==> final(self).incoming@ == old(self).incoming@.drop_first(),
            old(self).incoming@.len() > 0 ==> match old(self).incoming@[0] {
                TapRead::Error(e) => r == Err::<usize, i32>(e) && final(buf)@ == old(buf)@,
                TapRead::Frame(f) => r matches Ok(n) && n == (if f@.len() <= old(buf)@.len() { f@.len() } else { old(buf)@.len() })
                    && final(buf)@ == f@.subrange(0, n as int) + old(buf)@.subrange(n as int, old(buf)@.len() as int),
            },
    {
        if self.incoming.len() == 0 {
            return Err(EAGAIN);
        }
        let ghost inc0 = self.incoming@;
        let item = self.incoming.remove(0);
        assert forall|i: int| 0 <= i < self.incoming@.len() implies (#[trigger] self.incoming@[i] matches TapRead::Frame(f)
                ==> f@.len() > 0) by {
            assert(self.incoming@[i] == inc0[i + 1]);
        }
        match item {
            TapRead::Error(e) => Err(e),
            TapRead::Frame(f) => {
                let n = if f.len() <= buf.len() {
                    f.len()
                } else {
                    buf.len()
                };
                let ghost b0 = buf@;
                let mut i: usize = 0;
                while i < n
                    invariant
                        n <= f@.len(),
                        n <= b0.len(),
                        buf@.len() == b0.len(),
                        i <= n,
                        buf@ == f@.subrange(0, i as int) + b0.subrange(i as int, b0.len() as int),
                    decreases n - i,
                {
                    buf.set(i, f[i]);
                    i += 1;
                    assert(buf@ =~= f@.subrange(0, i as int) + b0.subrange(i as int, b0.len() as int));
                }
                Ok(n)
            },
        }
    }

    /// Writes `buf[..len]` as one frame.
    pub fn write(&mut self, buf: &Vec<u8>, len: usize) -> (r: Result<usize, i32>)
        requires
            len <= buf@.len(),
        ensures
            final(self).wf() == old(self).wf(),
            final(self).incoming == old(self).incoming,
            final(self).writable == old(self).writable,
            old(self).writable ==> r == Ok::<usize, i32>(len)
                && frames_of(final(self).outgoing@) == frames_of(old(self).outgoing@).push(buf@.subrange(0, len as int)),
            !old(self).writable ==> r == Err::<usize, i32>(EIO) && final(self).outgoing == old(self).outgoing,
    {
        if !self.writable {
            return Err(EIO);
        }
        let f = copy_range(buf, 0, len);
        self.outgoing.push(f);
        assert(frames_of(self.outgoing@) =~= frames_of(old(self).outgoing@).push(buf@.subrange(0, len as int)));
        Ok(len)
    }
}

} // verus!
