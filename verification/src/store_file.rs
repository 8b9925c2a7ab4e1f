//! Position bookkeeping of files driven through the io_uring ring.
use vstd::prelude::*;

verus! {

/// The operation a ring-driven file is busy with.
#[derive(Clone, Copy, Debug, PartialEq, Eq, Structural)]
pub enum Op {
    Read,
    ReadMore,
    Write,
    Close,
    Nothing,
    Pending,
    Statx,
}

/// Where a seek is measured from.
#[derive(Clone, Copy, Debug, PartialEq, Eq, Structural)]
pub enum SeekFrom {
    /// That many bytes from the start of the file.
    Start(u64),
    /// That many bytes, possibly negative, from the end of the file.
    End(i64),
    /// That many bytes, possibly negative, from the current position.
    Current(i64),
}

/// Why a seek was refused.
#[derive(Clone, Copy, Debug, PartialEq, Eq, Structural)]
pub enum SeekError {
    /// The target lies before the start of the file (`InvalidInput`).
    BeforeStart,
    /// The target does not fit a position (`EOVERFLOW`).
    Overflow,
}

/// Room reserved up front in the internal buffer of a file.
pub const INTERNAL_CAPACITY: usize = 8192;

/// Position, read-ahead buffer and operation state of a file driven
/// through the ring. The position is where the next read from the file
/// starts; the read-ahead buffer holds bytes read before it that have not
/// been consumed yet.
pub struct StoreFile {
    fd: i32,
    /// Bytes kept for the file's reads.
    pub internal: Vec<u8>,
    buf: Vec<u8>,
    consumed: usize,
    pos: usize,
    op_state: Op,
}

/// Target of a seek by `offset` from base position `whence`, taken as an
/// integer: a target before 0 is refused, and so is one beyond the largest
/// position.
pub open spec fn seek_target(whence: usize, offset: i64) -> Result<usize, SeekError> {
    let t = whence + offset;
    if t < 0 {
        Err(SeekError::BeforeStart)
    } else if t > usize::MAX {
        Err(SeekError::Overflow)
    } else {
        Ok(t as usize)
    }
}

/// Computes `seek_target(whence, offset)`, comparing in 64 bits before
/// narrowing to a position.
fn seek_to(whence: usize, offset: i64) -> (r: Result<usize, SeekError>)
    ensures
        r == seek_target(whence, offset),
{
    let w: u64 = whence as u64;
    if offset < 0 {
        let back: u64 = if offset == i64::MIN {
            0x8000_0000_0000_0000u64
        } else {
            (-offset) as u64
        };
        if w >= back {
            Ok((w - back) as usize)
        } else {
            Err(SeekError::BeforeStart)
        }
    } else {
        let forward: u64 = offset as u64;
        match w.checked_add(forward) {
            Some(t) => if t <= usize::MAX as u64 {
                Ok(t as usize)
            } else {
                Err(SeekError::Overflow)
            },
            None => Err(SeekError::Overflow),
        }
    }
}

impl StoreFile {
    /// Descriptor of the file.
    pub closed spec fn spec_fd(&self) -> i32 {
        self.fd
    }

    /// Current position in the file.
    pub closed spec fn spec_pos(&self) -> usize {
        self.pos
    }

    /// Contents of the internal buffer.
    pub closed spec fn spec_internal(&self) -> Seq<u8> {
        self.internal@
    }

    /// Bytes of the read-ahead buffer that are not consumed yet, in order.
    pub closed spec fn spec_buffered(&self) -> Seq<u8> {
        if self.consumed <= self.buf@.len() {
            self.buf@.subrange(self.consumed as int, self.buf@.len() as int)
        } else {
            Seq::empty()
        }
    }

    /// The operation the file is busy with.
    pub closed spec fn spec_op(&self) -> Op {
        self.op_state
    }

    /// A file at position 0 that is busy with nothing, with empty buffers.
    pub fn new(fd: i32) -> (r: StoreFile)
        ensures
            r.spec_fd() == fd,
            r.spec_pos() == 0,
            r.spec_op() == Op::Nothing,
            r.spec_internal() == Seq::<u8>::empty(),
            r.spec_buffered() == Seq::<u8>::empty(),
    {
        StoreFile {
            fd,
            internal: Vec::with_capacity(INTERNAL_CAPACITY),
            buf: Vec::new(),
            consumed: 0,
            pos: 0,
            op_state: Op::Nothing,
        }
    }

    /// Descriptor of the file.
    pub fn receive_fd(&self) -> (r: i32)
        ensures
            r == self.spec_fd(),
    {
        self.fd
    }

    /// Current position in the file.
    pub fn pos(&self) -> (r: usize)
        ensures
            r == self.spec_pos(),
    {
        self.pos
    }

    /// The operation the file is busy with.
    pub fn op_state(&self) -> (r: Op)
        ensures
            r == self.spec_op(),
    {
        self.op_state
    }

    /// Marks the file busy with `op`.
    pub fn guard_op(&mut self, op: Op)
        ensures
            final(self).spec_op() == op,
            final(self).spec_pos() == old(self).spec_pos(),
            final(self).spec_fd() == old(self).spec_fd(),
            final(self).spec_buffered() == old(self).spec_buffered(),
    {
        self.op_state = op;
    }

    /// Marks the file busy with nothing and drops the read-ahead buffer.
    pub fn cancel(&mut self)
        ensures
            final(self).spec_op() == Op::Nothing,
            final(self).spec_pos() == old(self).spec_pos(),
            final(self).spec_fd() == old(self).spec_fd(),
            final(self).spec_buffered() == Seq::<u8>::empty(),
    {
        self.op_state = Op::Nothing;
        self.drop_buffer();
    }

    fn drop_buffer(&mut self)
        ensures
            final(self).spec_op() == old(self).spec_op(),
            final(self).spec_pos() == old(self).spec_pos(),
            final(self).spec_fd() == old(self).spec_fd(),
            final(self).spec_buffered() == Seq::<u8>::empty(),
    {
        self.buf = Vec::new();
        self.consumed = 0;
        assert(self.buf@.subrange(0, 0) =~= Seq::<u8>::empty());
    }

    /// Marks the file busy with the size query that a seek from its end
    /// needs.
    pub fn poll_file_size(&mut self)
        ensures
            final(self).spec_op() == Op::Statx,
            final(self).spec_pos() == old(self).spec_pos(),
            final(self).spec_fd() == old(self).spec_fd(),
            final(self).spec_buffered() == old(self).spec_buffered(),
    {
        self.op_state = Op::Statx;
    }

    /// Records a read of `n` bytes at the current position: the position
    /// moves past them and the read completes with `n`; at the end of the
    /// file `n` is 0 and the position stays.
    pub fn filler(&mut self, n: usize) -> (r: usize)
        requires
            old(self).spec_pos() + n <= usize::MAX,
        ensures
            final(self).spec_fd() == old(self).spec_fd(),
            final(self).spec_op() == old(self).spec_op(),
            final(self).spec_pos() == old(self).spec_pos() + n,
            final(self).spec_buffered() == old(self).spec_buffered(),
            r == n,
    {
        self.pos = self.pos + n;
        n
    }

    /// Whether the read-ahead buffer is used up, so that the next read goes
    /// to the file.
    pub fn needs_fill(&self) -> (r: bool)
        ensures
            r == (self.spec_buffered().len() == 0),
    {
        self.consumed >= self.buf.len()
    }

    /// Takes in `bytes`, read from the file at the current position once
    /// the read-ahead buffer was used up: they become the buffer, the read
    /// is recorded as `filler` does, and the number read is returned (0 at
    /// the end of the file).
    pub fn fill_buf(&mut self, bytes: Vec<u8>) -> (r: usize)
        requires
            old(self).spec_buffered().len() == 0,
            old(self).spec_pos() + bytes@.len() <= usize::MAX,
        ensures
            final(self).spec_fd() == old(self).spec_fd(),
            final(self).spec_op() == old(self).spec_op(),
            final(self).spec_pos() == old(self).spec_pos() + bytes@.len(),
            final(self).spec_buffered() == bytes@,
            r == bytes@.len(),
    {
        let n: usize = bytes.len();
        self.buf = bytes;
        self.consumed = 0;
        assert(self.buf@.subrange(0, self.buf@.len() as int) =~= self.buf@);
        self.filler(n)
    }

    /// The unconsumed bytes of the read-ahead buffer, in order.
    pub fn buffered(&self) -> (r: Vec<u8>)
        ensures
            r@ == self.spec_buffered(),
    {
        let mut out: Vec<u8> = Vec::new();
        if self.consumed >= self.buf.len() {
            assert(self.consumed == self.buf@.len() ==> self.buf@.subrange(
                self.consumed as int,
                self.buf@.len() as int,
            ) =~= Seq::<u8>::empty());
            return out;
        }
        let mut i: usize = self.consumed;
        while i < self.buf.len()
            invariant
                self.consumed <= i <= self.buf@.len(),
                out@ == self.buf@.subrange(self.consumed as int, i as int),
            decreases self.buf@.len() - i,
        {
            out.push(self.buf[i]);
            assert(out@ =~= self.buf@.subrange(self.consumed as int, i + 1));
            i = i + 1;
        }
        out
    }

    /// Marks `amt` bytes of the read-ahead buffer consumed, or all of them
    /// when it holds fewer.
    pub fn consume(&mut self, amt: usize)
        ensures
            final(self).spec_fd() == old(self).spec_fd(),
            final(self).spec_op() == old(self).spec_op(),
            final(self).spec_pos() == old(self).spec_pos(),
            final(self).spec_buffered() == old(self).spec_buffered().skip(
                if amt < old(self).spec_buffered().len() {
                    amt as int
                } else {
                    old(self).spec_buffered().len() as int
                },
            ),
    {
        let len: usize = self.buf.len();
        if self.consumed >= len {
            self.consumed = len;
            assert(self.buf@.subrange(len as int, len as int) =~= Seq::<u8>::empty());
        } else if amt < len - self.consumed {
            let ghost before = self.spec_buffered();
            self.consumed = self.consumed + amt;
            assert(self.spec_buffered() =~= before.skip(amt as int));
        } else {
            self.consumed = len;
            assert(self.buf@.subrange(len as int, len as int) =~= Seq::<u8>::empty());
        }
    }

    /// Moves the position as `pos` says and returns the new position;
    /// `file_size` is the size of the file, consulted for a seek from its
    /// end. A moved position drops the read-ahead buffer, so that the next
    /// read starts there. A target before the start of the file, or beyond
    /// the largest position, is refused and nothing changes.
    pub fn poll_seek(&mut self, pos: SeekFrom, file_size: usize) -> (r: Result<u64, SeekError>)
        ensures
            final(self).spec_fd() == old(self).spec_fd(),
            final(self).spec_op() == old(self).spec_op(),
            ({
                let target = match pos {
                    SeekFrom::Start(n) => Ok(n as usize),
                    SeekFrom::Current(n) => seek_target(old(self).spec_pos(), n),
                    SeekFrom::End(n) => seek_target(file_size, n),
                };
                match target {
                    Ok(p) => final(self).spec_pos() == p && r == Ok::<u64, SeekError>(p as u64)
                        && final(self).spec_buffered() == Seq::<u8>::empty(),
                    Err(e) => final(self).spec_pos() == old(self).spec_pos() && r == Err::<
                        u64,
                        SeekError,
                    >(e) && final(self).spec_buffered() == old(self).spec_buffered(),
                }
            }),
    {
        let target = match pos {
            SeekFrom::Start(n) => Ok(n as usize),
            SeekFrom::Current(n) => seek_to(self.pos, n),
            SeekFrom::End(n) => seek_to(file_size, n),
        };
        match target {
            Ok(p) => {
                self.pos = p;
                self.drop_buffer();
                Ok(p as u64)
            },
            Err(e) => Err(e),
        }
    }
}

/// A seek whose target `p + d` lies between 0 and the largest position
/// lands there, forward or back, however far it goes.
pub proof fn law_seek_in_range_lands(p: usize, d: i64)
    requires
        0 <= p + d <= usize::MAX,
    ensures
        seek_target(p, d) == Ok::<usize, SeekError>((p + d) as usize),
{
}

/// A seek whose target `p + d` lies before 0 is refused as before the start.
pub proof fn law_seek_before_start_refused(p: usize, d: i64)
    requires
        p + d < 0,
    ensures
        seek_target(p, d) == Err::<usize, SeekError>(SeekError::BeforeStart),
{
}

/// A seek whose target `p + d` lies beyond the largest position is refused
/// as an overflow.
pub proof fn law_seek_beyond_positions_refused(p: usize, d: i64)
    requires
        p + d > usize::MAX,
    ensures
        seek_target(p, d) == Err::<usize, SeekError>(SeekError::Overflow),
{
}

/// A seek by zero keeps the position it is measured from.
pub proof fn law_seek_stay(p: usize)
    ensures
        seek_target(p, 0) == Ok::<usize, SeekError>(p),
{
}

/// A seek forward then back by the same distance, when both are allowed,
/// returns to the position it started from.
pub proof fn law_seek_round_trip(p: usize, d: i64)
    requires
        0 <= d,
        seek_target(p, d) is Ok,
    ensures
        seek_target(seek_target(p, d)->Ok_0, -d as i64) == Ok::<usize, SeekError>(p),
{
}

} // verus!
