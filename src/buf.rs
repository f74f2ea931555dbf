use vstd::prelude::*;
use crate::util::{be16_at, be32_at, set_be16, set_be32};

verus! {

/// Bytes of backing store in every packet buffer.
pub const BUF_CAPACITY: usize = 2048;

/// A fixed-capacity packet buffer whose valid bytes are the window
/// `[offset, length)` of its backing store. Headers are prepended and stripped
/// by moving `offset`; the payload bytes are never moved.
pub struct NetBuffer {
    data: Vec<u8>,
    offset: usize,
    length: usize,
}

impl NetBuffer {
    /// The whole backing store.
    pub closed spec fn store(&self) -> Seq<u8> {
        self.data@
    }

    /// First valid byte of the window.
    pub closed spec fn start(&self) -> nat {
        self.offset as nat
    }

    /// End of the window, counted from the start of the backing store.
    pub closed spec fn end(&self) -> nat {
        self.length as nat
    }

    /// The valid window.
    pub open spec fn window(&self) -> Seq<u8> {
        self.store().subrange(self.start() as int, self.end() as int)
    }

    /// The window lies inside the backing store, which has its full capacity.
    pub open spec fn wf(&self) -> bool {
        &&& self.store().len() == BUF_CAPACITY
        &&& self.start() <= self.end() <= BUF_CAPACITY
    }

    /// Free room in front of the window, where headers can be prepended.
    pub open spec fn headroom(&self) -> nat {
        self.start()
    }

    /// A fresh, empty buffer: `offset` and `length` are both zero.
    pub fn new() -> (r: NetBuffer)
        ensures
            r.wf(),
            r.start() == 0,
            r.end() == 0,
            r.window() == Seq::<u8>::empty(),
    {
        let data: Vec<u8> = vec![0u8; BUF_CAPACITY];
        let r = NetBuffer { data, offset: 0, length: 0 };
        assert(r.window() =~= Seq::<u8>::empty());
        r
    }

    /// A buffer whose window holds `payload`, with `headroom` bytes reserved
    /// in front of it for the headers of lower layers.
    pub fn with_payload(headroom: usize, payload: &[u8]) -> (r: NetBuffer)
        requires
            headroom + payload@.len() <= BUF_CAPACITY,
        ensures
            r.wf(),
            r.start() == headroom,
            r.end() == headroom + payload@.len(),
            r.window() == payload@,
    {
        let mut data: Vec<u8> = vec![0u8; BUF_CAPACITY];
        let mut i: usize = 0;
        while i < payload.len()
            invariant
                i <= payload@.len(),
                headroom + payload@.len() <= BUF_CAPACITY,
                data@.len() == BUF_CAPACITY,
                forall|k: int| 0 <= k < i ==> data@[headroom + k] == payload@[k],
            decreases payload@.len() - i,
        {
            data.set(headroom + i, payload[i]);
            i = i + 1;
        }
        let r = NetBuffer { data, offset: headroom, length: headroom + payload.len() };
        assert(r.window() =~= payload@);
        r
    }

    /// A buffer holding a frame just received from the wire: the window
    /// starts at byte 0 and covers exactly the received bytes.
    pub fn from_frame(frame: &[u8]) -> (r: NetBuffer)
        requires
            frame@.len() <= BUF_CAPACITY,
        ensures
            r.wf(),
            r.start() == 0,
            r.window() == frame@,
    {
        NetBuffer::with_payload(0, frame)
    }

    /// Read-only view of the window.
    pub fn payload(&self) -> (r: &[u8])
        requires
            self.wf(),
        ensures
            r@ == self.window(),
    {
        vstd::slice::slice_subrange(self.data.as_slice(), self.offset, self.length)
    }

    /// Number of valid bytes: `length - offset`.
    pub fn payload_len(&self) -> (r: usize)
        requires
            self.wf(),
        ensures
            r == self.window().len(),
            r == self.end() - self.start(),
            r <= BUF_CAPACITY,
    {
        self.length - self.offset
    }

    /// Bytes free in front of the window.
    pub fn headroom_len(&self) -> (r: usize)
        requires
            self.wf(),
        ensures
            r == self.headroom(),
    {
        self.offset
    }

    /// Byte `i` of the window.
    pub fn byte(&self, i: usize) -> (r: u8)
        requires
            self.wf(),
            i < self.window().len(),
        ensures
            r == self.window()[i as int],
    {
        self.data[self.offset + i]
    }

    /// Overwrites byte `i` of the window; nothing else changes.
    pub fn set_byte(&mut self, i: usize, v: u8)
        requires
            old(self).wf(),
            i < old(self).window().len(),
        ensures
            final(self).wf(),
            final(self).start() == old(self).start(),
            final(self).end() == old(self).end(),
            final(self).window() == old(self).window().update(i as int, v),
    {
        let at = self.offset + i;
        self.data.set(at, v);
        assert(self.window() =~= old(self).window().update(i as int, v));
    }

    /// Writes `v` big-endian at byte `i` of the window; no other byte changes.
    pub fn set_be16(&mut self, i: usize, v: u16)
        requires
            old(self).wf(),
            i + 2 <= old(self).window().len(),
        ensures
            final(self).wf(),
            final(self).start() == old(self).start(),
            final(self).end() == old(self).end(),
            final(self).window() == old(self).window().update(i as int, (v / 256) as u8).update(
                i + 1,
                (v % 256) as u8,
            ),
            be16_at(final(self).window(), i as int) == v,
    {
        let at = self.offset + i;
        set_be16(&mut self.data, at, v);
        assert(self.window() =~= old(self).window().update(i as int, (v / 256) as u8).update(
            i + 1,
            (v % 256) as u8,
        ));
    }

    /// Writes `v` big-endian at bytes `i .. i + 4` of the window; no other
    /// byte changes.
    pub fn set_be32(&mut self, i: usize, v: u32)
        requires
            old(self).wf(),
            i + 4 <= old(self).window().len(),
        ensures
            final(self).wf(),
            final(self).start() == old(self).start(),
            final(self).end() == old(self).end(),
            final(self).window() == old(self).window().update(i as int, (v / 16777216) as u8).update(
                i + 1,
                (v / 65536 % 256) as u8,
            ).update(i + 2, (v / 256 % 256) as u8).update(i + 3, (v % 256) as u8),
            be32_at(final(self).window(), i as int) == v,
    {
        let at = self.offset + i;
        set_be32(&mut self.data, at, v);
        assert(self.window() =~= old(self).window().update(i as int, (v / 16777216) as u8).update(
            i + 1,
            (v / 65536 % 256) as u8,
        ).update(i + 2, (v / 256 % 256) as u8).update(i + 3, (v % 256) as u8));
    }

    /// Moves the start of the window `n` bytes back, so that the `n` bytes in
    /// front of the old window become part of it. They keep whatever they held
    /// and are for the caller to fill.
    pub fn add_header(&mut self, n: usize)
        requires
            old(self).wf(),
            n <= old(self).start(),
        ensures
            final(self).wf(),
            final(self).store() == old(self).store(),
            final(self).start() == old(self).start() - n,
            final(self).end() == old(self).end(),
            final(self).window().subrange(n as int, final(self).window().len() as int)
                == old(self).window(),
    {
        self.offset = self.offset - n;
        assert(self.window().subrange(n as int, self.window().len() as int) =~= old(self).window());
    }

    /// Moves the start of the window `n` bytes forward, dropping the first
    /// `n` bytes of the window.
    pub fn remove_header(&mut self, n: usize)
        requires
            old(self).wf(),
            n <= old(self).window().len(),
        ensures
            final(self).wf(),
            final(self).store() == old(self).store(),
            final(self).start() == old(self).start() + n,
            final(self).end() == old(self).end(),
            final(self).window() == old(self).window().subrange(n as int, old(self).window().len() as int),
    {
        self.offset = self.offset + n;
        assert(self.window() =~= old(self).window().subrange(n as int, old(self).window().len() as int));
    }
}

/// Prepending `n` bytes of header and stripping them again gives back the
/// buffer as it was: same start, same end, same bytes.
pub proof fn lemma_add_remove_inverse(b0: NetBuffer, b1: NetBuffer, b2: NetBuffer, n: nat)
    requires
        b0.wf(),
        n <= b0.start(),
        b1.wf(),
        b1.store() == b0.store(),
        b1.start() == b0.start() - n,
        b1.end() == b0.end(),
        n <= b1.window().len(),
        b2.wf(),
        b2.store() == b1.store(),
        b2.start() == b1.start() + n,
        b2.end() == b1.end(),
    ensures
        b2.start() == b0.start(),
        b2.end() == b0.end(),
        b2.store() == b0.store(),
        b2.window() == b0.window(),
{
}

} // verus!
