use vstd::prelude::*;

verus! {

/// A seekable byte stream held in memory: the source that a decoder reads from.
pub struct ByteReader {
    data: Vec<u8>,
    pos: u64,
}

impl ByteReader {
    /// The bytes of the stream.
    pub closed spec fn content(&self) -> Seq<u8> {
        self.data@
    }

    /// The current read position; it may lie past the end.
    pub closed spec fn position(&self) -> nat {
        self.pos as nat
    }

    /// A stream over `data`, positioned at its start.
    pub fn new(data: Vec<u8>) -> (r: ByteReader)
        ensures
            r.content() == data@,
            r.position() == 0,
    {
        ByteReader { data, pos: 0 }
    }

    /// Length of the stream in bytes.
    pub fn stream_len(&self) -> (r: u64)
        ensures
            r == self.content().len(),
            self.content().len() <= usize::MAX,
    {
        self.data.len() as u64
    }

    pub fn stream_position(&self) -> (r: u64)
        ensures
            r == self.position(),
    {
        self.pos
    }

    /// Moves the read position to `pos`, which may lie past the end.
    pub fn seek(&mut self, pos: u64)
        ensures
            final(self).content() == old(self).content(),
            final(self).position() == pos,
    {
        self.pos = pos;
    }

    pub fn rewind(&mut self)
        ensures
            final(self).content() == old(self).content(),
            final(self).position() == 0,
    {
        self.pos = 0;
    }

    /// Copies up to `count` bytes from the current position into `buf[start..]` and
    /// advances past them; returns how many were copied (fewer only at the end).
    pub fn read(&mut self, buf: &mut Vec<u8>, start: usize, count: usize) -> (n: usize)
        requires
            start + count <= old(buf).len(),
        ensures
            final(self).content() == old(self).content(),
            n == (if old(self).position() >= old(self).content().len() {
                0
            } else if count <= old(self).content().len() - old(self).position() {
                count as int
            } else {
                old(self).content().len() - old(self).position()
            }),
            final(self).position() == old(self).position() + n,
            n == 0 ==> final(buf)@ == old(buf)@,
            n > 0 ==> final(buf)@ == old(buf)@.subrange(0, start as int) + old(self).content().subrange(
                old(self).position() as int,
                old(self).position() + n,
            ) + old(buf)@.subrange(start + n, old(buf)@.len() as int),
    {
        let len = self.data.len();
        let n: usize = if self.pos >= len as u64 {
            0
        } else if count as u64 <= len as u64 - self.pos {
            count
        } else {
            (len as u64 - self.pos) as usize
        };
        if n == 0 {
            return 0;
        }
        assert(self.pos < len);
        let from = self.pos as usize;
        let ghost old_buf = buf@;
        let mut i: usize = 0;
        while i < n
            invariant
                0 <= i <= n,
                from + n <= self.data.len(),
                from == self.pos,
                start + n <= buf.len(),
                buf@.len() == old_buf.len(),
                forall|j: int| 0 <= j < start || start + i <= j < buf@.len() ==> buf@[j] == old_buf[j],
                forall|j: int| start <= j < start + i ==> buf@[j] == self.data@[from + (j - start)],
            decreases n - i,
        {
            buf.set(start + i, self.data[from + i]);
            i = i + 1;
        }
        assert(buf@ =~= old_buf.subrange(0, start as int) + self.data@.subrange(
            from as int,
            from + n,
        ) + old_buf.subrange(start + n, old_buf.len() as int));
        self.pos = self.pos + n as u64;
        n
    }

    /// Gives the underlying bytes back.
    pub fn into_inner(self) -> (r: Vec<u8>)
        ensures
            r@ == self.content(),
    {
        self.data
    }
}

} // verus!
