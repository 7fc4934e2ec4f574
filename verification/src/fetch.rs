//! Write cursors: the offset discipline of the two fetch modes.

use vstd::prelude::*;
use crate::segment::Segment;

verus! {

/// Write cursor of one segment worker. Every offset it grants lies inside
/// the worker's own segment, so the workers of a valid plan never touch each
/// other's bytes even though they share one file handle.
pub struct SegmentCursor {
    segment: Segment,
    cursor: u64,
}

impl SegmentCursor {
    /// The segment this cursor writes into.
    pub closed spec fn spec_segment(&self) -> Segment {
        self.segment
    }

    /// The offset the next chunk will be written at.
    pub closed spec fn spec_cursor(&self) -> int {
        self.cursor as int
    }

    /// The cursor sits between the segment's start and one past its end.
    pub open spec fn wf(&self) -> bool {
        self.spec_segment().wf() && self.spec_segment().start <= self.spec_cursor()
            <= self.spec_segment().end + 1
    }

    /// Bytes still to be written.
    pub open spec fn spec_remaining(&self) -> int {
        self.spec_segment().end + 1 - self.spec_cursor()
    }

    pub fn new(segment: Segment) -> (c: Self)
        requires
            segment.wf(),
        ensures
            c.wf(),
            c.spec_segment() == segment,
            c.spec_cursor() == segment.start,
    {
        SegmentCursor { segment, cursor: segment.start }
    }

    /// Grants the positional write offset for the next chunk of `len` bytes
    /// and advances past it; refuses, leaving the cursor alone, a chunk that
    /// would run beyond the segment's end.
    pub fn advance(&mut self, len: u64) -> (offset: Option<u64>)
        requires
            old(self).wf(),
        ensures
            final(self).wf(),
            final(self).spec_segment() == old(self).spec_segment(),
            match offset {
                Option::Some(off) => {
                    &&& len <= old(self).spec_remaining()
                    &&& off == old(self).spec_cursor()
                    &&& final(self).spec_cursor() == old(self).spec_cursor() + len
                    &&& old(self).spec_segment().start <= off
                    &&& off + len <= old(self).spec_segment().end + 1
                },
                Option::None => *final(self) == *old(self) && len > old(self).spec_remaining(),
            },
    {
        let remaining = self.segment.end + 1 - self.cursor;
        if len <= remaining {
            let off = self.cursor;
            self.cursor = self.cursor + len;
            Some(off)
        } else {
            None
        }
    }

    /// Whether every byte of the segment has been written.
    pub fn is_complete(&self) -> (r: bool)
        requires
            self.wf(),
        ensures
            r == (self.spec_remaining() == 0),
    {
        self.cursor == self.segment.end + 1
    }

    /// Bytes written so far.
    pub fn written(&self) -> (n: u64)
        requires
            self.wf(),
        ensures
            n == self.spec_cursor() - self.spec_segment().start,
    {
        self.cursor - self.segment.start
    }
}

/// Append cursor of the single-stream fallback: tracks the length of the
/// output file as chunks are appended, so the final length is the resume
/// offset plus exactly the bytes the server sent.
pub struct SequentialCursor {
    offset: u64,
}

impl SequentialCursor {
    /// The length the output file has reached.
    pub closed spec fn spec_offset(&self) -> int {
        self.offset as int
    }

    pub fn new(existing_size: u64) -> (c: Self)
        ensures
            c.spec_offset() == existing_size,
    {
        SequentialCursor { offset: existing_size }
    }

    /// Accounts for one appended chunk of `len` bytes and returns the offset
    /// it was appended at; refuses a chunk that would push the file length
    /// past `u64::MAX`.
    pub fn advance(&mut self, len: u64) -> (offset: Option<u64>)
        ensures
            match offset {
                Option::Some(off) => {
                    &&& off == old(self).spec_offset()
                    &&& final(self).spec_offset() == old(self).spec_offset() + len
                },
                Option::None => *final(self) == *old(self) && old(self).spec_offset() + len
                    > u64::MAX,
            },
    {
        if len <= u64::MAX - self.offset {
            let off = self.offset;
            self.offset = self.offset + len;
            Some(off)
        } else {
            None
        }
    }
}

} // verus!
