//! The ring buffer itself: storage, cursors, occupancy accounting, and the
//! wraparound logic for appending and reading byte runs.

use vstd::prelude::*;

verus! {

/// Message carried by errors about a length that can never be satisfied.
pub const ERR_STR_INVALID_LEN: &'static str = "invalid length";

/// Message carried by errors about free space that is missing.
pub const ERR_STR_BUFFER_FULL: &'static str = "buffer is full";

/// Why an `append` was refused for want of free space.
#[derive(Clone, Copy, Debug, PartialEq, Eq)]
pub enum BufferFullReason {
    /// Every byte of the storage holds unread data.
    NoFreeSpace,
    /// The free gap between the write cursor and the read cursor is shorter
    /// than the payload.
    GapTooSmall,
    /// The payload would have to wrap, and its wrapped part would overwrite
    /// unread data.
    SplitDoesNotFit,
}

/// An error returned by `append`.
#[derive(Clone, Copy, Debug, PartialEq, Eq)]
pub enum AppendError {
    /// The payload is longer than the whole storage, so it can never fit.
    InvalidLength,
    /// No sufficiently large free region exists in the current state.
    BufferFull(BufferFullReason),
}

/// An error returned by `get` and `peek`.
#[derive(Clone, Copy, Debug, PartialEq, Eq)]
pub enum ReadError {
    /// The requested length exceeds the data currently buffered.
    InvalidLength,
}

impl AppendError {
    /// Human-readable description of the failure.
    pub fn message(&self) -> (r: &'static str)
        ensures
            (*self matches AppendError::InvalidLength) ==> r == ERR_STR_INVALID_LEN,
            (*self matches AppendError::BufferFull(_)) ==> r == ERR_STR_BUFFER_FULL,
    {
        match self {
            AppendError::InvalidLength => ERR_STR_INVALID_LEN,
            AppendError::BufferFull(_) => ERR_STR_BUFFER_FULL,
        }
    }
}

impl ReadError {
    /// Human-readable description of the failure.
    pub fn message(&self) -> (r: &'static str)
        ensures
            r == ERR_STR_INVALID_LEN,
    {
        ERR_STR_INVALID_LEN
    }
}

/// Physical storage index of a logical position `pos`, reduced once at the
/// capacity `cap`; positions handled here never reach twice the capacity.
pub open spec fn wrap_index(pos: int, cap: int) -> int {
    if pos < cap {
        pos
    } else {
        pos - cap
    }
}

/// A fixed-capacity circular byte buffer.
///
/// The storage length never changes after construction. `rpos` marks the next
/// byte to read, `wpos` the next byte to write, and `cumulated_len` counts the
/// bytes currently holding written-but-unread data; it is tracked on its own
/// because `rpos == wpos` is otherwise ambiguous between empty and full.
#[derive(Debug)]
pub struct BrBuffer {
    buffer: Vec<u8>,
    buffer_len: usize,
    rpos: usize,
    wpos: usize,
    cumulated_len: usize,
}

impl View for BrBuffer {
    type V = Seq<u8>;

    /// The logical content: the written-but-unread bytes, in the order they
    /// were appended, read from `rpos` with wraparound at the capacity.
    closed spec fn view(&self) -> Seq<u8> {
        Seq::new(
            self.cumulated_len as nat,
            |i: int| self.buffer@[wrap_index(self.rpos + i, self.buffer_len as int)],
        )
    }
}

impl BrBuffer {
    /// Total allocation size, fixed at construction.
    pub closed spec fn spec_capacity(self) -> int {
        self.buffer_len as int
    }

    /// Current read cursor.
    pub closed spec fn spec_rpos(self) -> int {
        self.rpos as int
    }

    /// Current write cursor.
    pub closed spec fn spec_wpos(self) -> int {
        self.wpos as int
    }

    /// Count of bytes currently holding written-but-unread data.
    pub closed spec fn spec_cumulated_len(self) -> int {
        self.cumulated_len as int
    }

    /// Well-formedness: the storage has the fixed length, both cursors and the
    /// occupancy stay within it, and the occupancy agrees with the cursors
    /// (with `rpos == wpos` left ambiguous between empty and full, which is
    /// exactly why the occupancy is a field of its own).
    pub closed spec fn wf(self) -> bool {
        &&& self.buffer@.len() == self.buffer_len
        &&& self.rpos <= self.buffer_len
        &&& self.wpos <= self.buffer_len
        &&& self.cumulated_len <= self.buffer_len
        &&& (self.rpos < self.wpos ==> self.cumulated_len == self.wpos - self.rpos)
        &&& (self.wpos < self.rpos ==> self.cumulated_len == self.buffer_len - self.rpos
            + self.wpos)
        &&& (self.rpos == self.wpos ==> (self.cumulated_len == 0 || self.cumulated_len
            == self.buffer_len))
    }

    /// Create a buffer of `len` zeroed bytes, both cursors at the start and
    /// nothing buffered.
    pub fn new(len: usize) -> (r: BrBuffer)
        ensures
            r.wf(),
            r@ == Seq::<u8>::empty(),
            r.spec_capacity() == len,
            r.spec_rpos() == 0,
            r.spec_wpos() == 0,
            r.spec_cumulated_len() == 0,
    {
        let mut buffer: Vec<u8> = Vec::new();
        let mut i: usize = 0;
        while i < len
            invariant
                i <= len,
                buffer@.len() == i,
            decreases len - i,
        {
            buffer.push(0);
            i = i + 1;
        }
        let r = BrBuffer { buffer, buffer_len: len, rpos: 0, wpos: 0, cumulated_len: 0 };
        proof {
            assert(r@ =~= Seq::<u8>::empty());
        }
        r
    }

    /// Total allocation size, fixed at construction.
    pub fn capacity(&self) -> (r: usize)
        ensures
            r == self.spec_capacity(),
    {
        self.buffer_len
    }

    /// Count of bytes currently holding written-but-unread data.
    pub fn cumulated_len(&self) -> (r: usize)
        ensures
            r == self.spec_cumulated_len(),
            r == self@.len(),
    {
        self.cumulated_len
    }

    /// Current read cursor.
    pub fn rpos(&self) -> (r: usize)
        ensures
            r == self.spec_rpos(),
    {
        self.rpos
    }

    /// Current write cursor.
    pub fn wpos(&self) -> (r: usize)
        ensures
            r == self.spec_wpos(),
    {
        self.wpos
    }

    /// The exact accept / reject decision of `append`, with the checks made
    /// in order: an oversized payload is invalid outright, a full buffer
    /// refuses everything, and otherwise the free region must hold the
    /// payload, either in one piece or split at the physical end of the
    /// storage without overwriting unread data.
    pub open spec fn append_decision(self, len: int) -> Result<(), AppendError> {
        if len > self.spec_capacity() {
            Err(AppendError::InvalidLength)
        } else if self.spec_cumulated_len() == self.spec_capacity() {
            Err(AppendError::BufferFull(BufferFullReason::NoFreeSpace))
        } else if self.spec_rpos() > self.spec_wpos() {
            if len <= self.spec_rpos() - self.spec_wpos() {
                Ok(())
            } else {
                Err(AppendError::BufferFull(BufferFullReason::GapTooSmall))
            }
        } else if len <= self.spec_capacity() - self.spec_wpos() {
            Ok(())
        } else if len - (self.spec_capacity() - self.spec_wpos()) <= self.spec_rpos() {
            Ok(())
        } else {
            Err(AppendError::BufferFull(BufferFullReason::SplitDoesNotFit))
        }
    }

    /// Where the write cursor stands after a successful append of `len`
    /// bytes: advanced by `len`, reduced once at the capacity when the write
    /// wrapped.
    pub open spec fn wpos_after_append(self, len: int) -> int {
        if self.spec_wpos() + len <= self.spec_capacity() {
            self.spec_wpos() + len
        } else {
            self.spec_wpos() + len - self.spec_capacity()
        }
    }

    /// Copy the first `len` bytes of `data` into the ring, advancing the
    /// write cursor and the occupancy, or report why they do not fit. The
    /// caller must supply at least `len` bytes. Nothing changes on an error.
    pub fn append(&mut self, len: usize, data: &[u8]) -> (r: Result<(), AppendError>)
        requires
            old(self).wf(),
            len <= data@.len(),
        ensures
            final(self).wf(),
            r == old(self).append_decision(len as int),
            r is Ok ==> {
                &&& final(self)@ == old(self)@ + data@.subrange(0, len as int)
                &&& final(self).spec_cumulated_len() == old(self).spec_cumulated_len() + len
                &&& final(self).spec_rpos() == old(self).spec_rpos()
                &&& final(self).spec_wpos() == old(self).wpos_after_append(len as int)
                &&& final(self).spec_capacity() == old(self).spec_capacity()
            },
            r is Err ==> *final(self) == *old(self),
    {
        if self.buffer_len < len {
            return Err(AppendError::InvalidLength);
        }
        if self.buffer_len == self.cumulated_len {
            return Err(AppendError::BufferFull(BufferFullReason::NoFreeSpace));
        }
        if self.rpos > self.wpos {
            // The live data wraps, so the free region is the single gap
            // between the two cursors.
            if len <= self.rpos - self.wpos {
                copy_range_into(&mut self.buffer, self.wpos, data, 0, len);
                self.wpos = self.wpos + len;
                self.cumulated_len = self.cumulated_len + len;
                proof {
                    self.lemma_view_after_write(*old(self), data@, len as int);
                }
                Ok(())
            } else {
                Err(AppendError::BufferFull(BufferFullReason::GapTooSmall))
            }
        } else {
            // The live data (if any) is contiguous; the free region runs to
            // the physical end of the storage and continues before `rpos`.
            if len <= self.buffer_len - self.wpos {
                copy_range_into(&mut self.buffer, self.wpos, data, 0, len);
                self.wpos = self.wpos + len;
                self.cumulated_len = self.cumulated_len + len;
                proof {
                    self.lemma_view_after_write(*old(self), data@, len as int);
                }
                Ok(())
            } else {
                let first: usize = self.buffer_len - self.wpos;
                let second: usize = len - first;
                if second <= self.rpos {
                    copy_range_into(&mut self.buffer, self.wpos, data, 0, first);
                    copy_range_into(&mut self.buffer, 0, data, first, second);
                    self.wpos = second;
                    self.cumulated_len = self.cumulated_len + len;
                    proof {
                        self.lemma_view_after_split_write(*old(self), data@, len as int);
                    }
                    Ok(())
                } else {
                    Err(AppendError::BufferFull(BufferFullReason::SplitDoesNotFit))
                }
            }
        }
    }

    /// Where the read cursor stands after a successful read of `len` bytes:
    /// advanced by `len`, reduced once at the capacity when the read wrapped.
    pub open spec fn rpos_after_get(self, len: int) -> int {
        if self.spec_rpos() + len <= self.spec_capacity() {
            self.spec_rpos() + len
        } else {
            self.spec_rpos() + len - self.spec_capacity()
        }
    }

    /// Preview the next `len` buffered bytes without consuming them. The
    /// receiver is shared, so no cursor and no byte of the storage can move.
    /// Succeeds exactly when `len` bytes are buffered; a wrap-spanning run is
    /// returned as one contiguous copy.
    pub fn peek(&self, len: usize) -> (r: Result<Vec<u8>, ReadError>)
        requires
            self.wf(),
        ensures
            match r {
                Ok(out) => len <= self@.len() && out@ == self@.subrange(0, len as int),
                Err(e) => len > self@.len() && e == ReadError::InvalidLength,
            },
    {
        if self.cumulated_len < len {
            return Err(ReadError::InvalidLength);
        }
        let mut out: Vec<u8> = Vec::new();
        let mut i: usize = 0;
        while i < len
            invariant
                self.wf(),
                i <= len,
                len <= self.cumulated_len,
                out@.len() == i,
                forall|j: int| 0 <= j < i ==> out@[j] == self@[j],
            decreases len - i,
        {
            let idx: usize = if i < self.buffer_len - self.rpos {
                self.rpos + i
            } else {
                i - (self.buffer_len - self.rpos)
            };
            proof {
                assert(idx == wrap_index(self.rpos + i, self.buffer_len as int));
                assert(idx < self.buffer@.len());
            }
            let b: u8 = self.buffer[idx];
            out.push(b);
            i = i + 1;
        }
        proof {
            assert(out@ =~= self@.subrange(0, len as int));
        }
        Ok(out)
    }

    /// Destructively read the next `len` buffered bytes: the returned bytes
    /// are removed from the front of the content, the read cursor advances
    /// (wrapping once at the capacity) and the occupancy falls by `len`.
    /// Succeeds exactly when `len` bytes are buffered; nothing changes on an
    /// error.
    pub fn get(&mut self, len: usize) -> (r: Result<Vec<u8>, ReadError>)
        requires
            old(self).wf(),
        ensures
            final(self).wf(),
            match r {
                Ok(out) => {
                    &&& len <= old(self)@.len()
                    &&& out@ == old(self)@.subrange(0, len as int)
                    &&& final(self)@ == old(self)@.subrange(len as int, old(self)@.len() as int)
                    &&& final(self).spec_cumulated_len() == old(self).spec_cumulated_len() - len
                    &&& final(self).spec_rpos() == old(self).rpos_after_get(len as int)
                    &&& final(self).spec_wpos() == old(self).spec_wpos()
                    &&& final(self).spec_capacity() == old(self).spec_capacity()
                },
                Err(e) => len > old(self)@.len() && e == ReadError::InvalidLength && *final(self)
                    == *old(self),
            },
    {
        match self.peek(len) {
            Err(e) => Err(e),
            Ok(out) => {
                if len <= self.buffer_len - self.rpos {
                    self.rpos = self.rpos + len;
                } else {
                    self.rpos = len - (self.buffer_len - self.rpos);
                }
                self.cumulated_len = self.cumulated_len - len;
                proof {
                    self.lemma_view_after_advance(*old(self), len as int);
                }
                Ok(out)
            },
        }
    }

    /// Advancing the read cursor past `len` bytes leaves exactly the content
    /// with its first `len` bytes dropped, and keeps the buffer well-formed.
    proof fn lemma_view_after_advance(self, pre: BrBuffer, len: int)
        requires
            pre.wf(),
            0 <= len <= pre.cumulated_len,
            self.buffer == pre.buffer,
            self.buffer_len == pre.buffer_len,
            self.wpos == pre.wpos,
            self.rpos == pre.rpos_after_get(len),
            self.cumulated_len == pre.cumulated_len - len,
        ensures
            self.wf(),
            self@ == pre@.subrange(len, pre@.len() as int),
    {
        assert(self@ =~= pre@.subrange(len, pre@.len() as int));
    }

    /// After a write into the single free stretch starting at the old write
    /// cursor, the content is the old content followed by the copied bytes.
    proof fn lemma_view_after_write(self, pre: BrBuffer, data: Seq<u8>, len: int)
        requires
            pre.wf(),
            0 <= len <= data.len(),
            pre.cumulated_len < pre.buffer_len,
            pre.wpos + len <= pre.buffer_len,
            pre.rpos > pre.wpos ==> len <= pre.rpos - pre.wpos,
            self.buffer@.len() == pre.buffer@.len(),
            forall|j: int|
                pre.wpos <= j < pre.wpos + len ==> self.buffer@[j] == data[j - pre.wpos],
            forall|j: int|
                0 <= j < self.buffer@.len() && !(pre.wpos <= j < pre.wpos + len)
                    ==> self.buffer@[j] == pre.buffer@[j],
            self.buffer_len == pre.buffer_len,
            self.rpos == pre.rpos,
            self.wpos == pre.wpos + len,
            self.cumulated_len == pre.cumulated_len + len,
        ensures
            self.wf(),
            self@ == pre@ + data.subrange(0, len),
    {
        assert(self@ =~= pre@ + data.subrange(0, len));
    }

    /// After a write split at the physical end of the storage, the content is
    /// the old content followed by the copied bytes.
    proof fn lemma_view_after_split_write(self, pre: BrBuffer, data: Seq<u8>, len: int)
        requires
            pre.wf(),
            0 <= len <= data.len(),
            pre.cumulated_len < pre.buffer_len,
            pre.rpos <= pre.wpos,
            pre.wpos + len > pre.buffer_len,
            len - (pre.buffer_len - pre.wpos) <= pre.rpos,
            self.buffer@.len() == pre.buffer@.len(),
            forall|j: int|
                pre.wpos <= j < pre.buffer_len ==> self.buffer@[j] == data[j - pre.wpos],
            forall|j: int|
                0 <= j < len - (pre.buffer_len - pre.wpos)
                    ==> self.buffer@[j] == data[(pre.buffer_len - pre.wpos) + j],
            forall|j: int|
                0 <= j < self.buffer@.len() && !(pre.wpos <= j < pre.buffer_len)
                    && !(0 <= j < len - (pre.buffer_len - pre.wpos))
                    ==> self.buffer@[j] == pre.buffer@[j],
            self.buffer_len == pre.buffer_len,
            self.rpos == pre.rpos,
            self.wpos == len - (pre.buffer_len - pre.wpos),
            self.cumulated_len == pre.cumulated_len + len,
        ensures
            self.wf(),
            self@ == pre@ + data.subrange(0, len),
    {
        assert(self@ =~= pre@ + data.subrange(0, len));
    }
}

/// Capacity invariant: the occupancy of a well-formed buffer always lies
/// between zero and the capacity. Every operation requires and preserves
/// well-formedness, so this holds after any sequence of calls.
pub proof fn lemma_occupancy_within_capacity(b: BrBuffer)
    requires
        b.wf(),
    ensures
        0 <= b@.len() <= b.spec_capacity(),
        b@.len() == b.spec_cumulated_len(),
{
}

/// Round trip: when an append of the first `len` bytes of `data` to an empty
/// buffer succeeds, the content becomes exactly those bytes (`append`'s
/// contract), so a following `get(len)` returns them unchanged (`get`'s
/// contract: the first `len` bytes of the content) and brings the occupancy
/// back down by `len` to its pre-append value.
pub proof fn lemma_append_get_round_trip(pre: BrBuffer, post: BrBuffer, data: Seq<u8>, len: int)
    requires
        pre.wf(),
        pre@.len() == 0,
        0 <= len <= data.len(),
        post@ == pre@ + data.subrange(0, len),
    ensures
        post@.subrange(0, len) == data.subrange(0, len),
        post@.len() - len == pre@.len(),
{
    assert(post@.subrange(0, len) =~= data.subrange(0, len));
}

/// Full-buffer rejection: once the occupancy equals the capacity, an append
/// of one byte or more is always refused, and whenever the length is not
/// itself oversized the refusal is `BufferFull` for want of any free space.
pub proof fn lemma_full_buffer_rejects_append(b: BrBuffer, len: int)
    requires
        b.wf(),
        b@.len() == b.spec_capacity(),
        len >= 1,
    ensures
        b.append_decision(len) is Err,
        len <= b.spec_capacity() ==> b.append_decision(len) == Err::<(), AppendError>(
            AppendError::BufferFull(BufferFullReason::NoFreeSpace),
        ),
{
}

/// Oversized rejection: an append longer than the whole capacity is refused
/// as `InvalidLength`, whatever the current occupancy.
pub proof fn lemma_oversized_append_rejected(b: BrBuffer, len: int)
    requires
        b.wf(),
        len > b.spec_capacity(),
    ensures
        b.append_decision(len) == Err::<(), AppendError>(AppendError::InvalidLength),
{
}

/// Copy `data[from..from + len]` to `buffer[at..at + len]`, leaving every
/// other byte of `buffer` as it was.
fn copy_range_into(buffer: &mut Vec<u8>, at: usize, data: &[u8], from: usize, len: usize)
    requires
        at + len <= old(buffer)@.len(),
        from + len <= data@.len(),
    ensures
        final(buffer)@.len() == old(buffer)@.len(),
        forall|j: int| at <= j < at + len ==> final(buffer)@[j] == data@[from + (j - at)],
        forall|j: int|
            0 <= j < old(buffer)@.len() && !(at <= j < at + len)
                ==> final(buffer)@[j] == old(buffer)@[j],
{
    proof {
        assert(buffer.len() == buffer@.len());
        assert(data.len() == data@.len());
    }
    let mut i: usize = 0;
    while i < len
        invariant
            i <= len,
            at + len <= buffer.len(),
            from + len <= data.len(),
            at + len <= buffer@.len(),
            from + len <= data@.len(),
            buffer@.len() == old(buffer)@.len(),
            forall|j: int| at <= j < at + i ==> buffer@[j] == data@[from + (j - at)],
            forall|j: int|
                0 <= j < buffer@.len() && !(at <= j < at + i)
                    ==> buffer@[j] == old(buffer)@[j],
        decreases len - i,
    {
        buffer[at + i] = data[from + i];
        i = i + 1;
    }
}

} // verus!
