//! A pull-based byte stream over a foreign incremental-read object.
//!
//! The reader owns a scratch capacity sized to the largest request seen so
//! far: a request larger than the current capacity grows it to exactly the
//! requested size before the foreign read, and it never shrinks.  The
//! foreign end-of-stream sentinel (-1) is translated to "0 bytes read, not
//! an error".  The foreign close is issued at most once, however often the
//! reader is released, and a close failure is never surfaced: the handle is
//! always released.

use vstd::prelude::*;
use vstd::string::StringExecFns;

use crate::errors::{ExtractError, ExtractResult};

verus! {

/// The scratch capacity a reader starts with.
pub const DEFAULT_BUF_SIZE: usize = 8192;

/// The foreign incremental-read object, reached through a capability so the
/// reader's own state machine is verified for every answer the foreign side
/// can give.
pub trait ForeignReader {
    /// One foreign read of at most `max_len` bytes.  A non-negative count
    /// comes with exactly that many bytes; the end-of-stream sentinel -1
    /// comes with none.
    fn read_raw(&mut self, max_len: usize) -> (r: Result<(Vec<u8>, i32), String>)
        ensures
            r matches Ok((bytes, n)) ==> -1 <= n && n <= max_len && (n >= 0 ==> bytes@.len()
                == n as nat),
    ;

    /// One foreign close.  A failure inside it must be swallowed by the
    /// implementation: release is best-effort.
    fn close_raw(&mut self);
}

/// The capacity after a read request: grown to exactly the requested size
/// where that exceeds the current capacity, unchanged otherwise — so it
/// never shrinks.
pub open spec fn spec_grown(capacity: nat, requested: nat) -> nat {
    if requested > capacity {
        requested
    } else {
        capacity
    }
}

/// Translates the foreign read count: the end-of-stream sentinel -1 means 0
/// bytes read, not an error; any other count passes through.
pub fn translate_read_count(n: i32) -> (r: usize)
    requires
        n >= -1,
    ensures
        n == -1 ==> r == 0,
        n >= 0 ==> r == n as int,
{
    if n <= 0 {
        0
    } else {
        n as usize
    }
}

/// The state a reader can be in: open until released, closed exactly once.
#[derive(Debug, Clone, Copy, PartialEq, Eq, Structural)]
pub enum ReaderState {
    /// The foreign handle is live and reads may be issued.
    Open,
    /// The foreign handle has been released; no further read may be issued.
    Closed,
}

/// The bridge's wrapper around a foreign incremental-read object: a scratch
/// capacity that only grows, and a close that is issued to the foreign side
/// at most once, on whatever path the reader is released.
pub struct StreamingReader<R: ForeignReader> {
    source: R,
    capacity: usize,
    state: ReaderState,
    closes_issued: Ghost<nat>,
}

impl<R: ForeignReader> StreamingReader<R> {
    /// Wraps a foreign reader, with the default scratch capacity.
    pub fn new(source: R) -> (r: StreamingReader<R>)
        ensures
            r.capacity() == DEFAULT_BUF_SIZE as nat,
            r.state() == ReaderState::Open,
            r.closes_issued() == 0,
    {
        StreamingReader {
            source,
            capacity: DEFAULT_BUF_SIZE,
            state: ReaderState::Open,
            closes_issued: Ghost(0nat),
        }
    }

    /// The current scratch capacity.
    pub closed spec fn capacity(&self) -> nat {
        self.capacity as nat
    }

    /// Whether the reader is still open.
    pub closed spec fn state(&self) -> ReaderState {
        self.state
    }

    /// How many foreign close calls this reader has issued to its source.
    pub closed spec fn closes_issued(&self) -> nat {
        self.closes_issued@
    }

    /// Reads up to `max_len` bytes.  A request larger than the current
    /// capacity grows the capacity to exactly the requested size first; a
    /// smaller request leaves it unchanged.  End of stream is an empty
    /// result, not an error.  A failing foreign read is an underlying stream
    /// failure, so it surfaces as an I/O error.  Reading never closes the
    /// foreign handle.
    pub fn read(&mut self, max_len: usize) -> (r: ExtractResult<Vec<u8>>)
        requires
            old(self).state() == ReaderState::Open,
        ensures
            final(self).state() == ReaderState::Open,
            final(self).capacity() == spec_grown(old(self).capacity(), max_len as nat),
            final(self).closes_issued() == old(self).closes_issued(),
            r matches Ok(bytes) ==> bytes@.len() <= max_len,
            r matches Err(e) ==> e is IoError,
    {
        if max_len > self.capacity {
            self.capacity = max_len;
        }
        match self.source.read_raw(max_len) {
            Ok((bytes, n)) => {
                if n < -1 {
                    Err(
                        ExtractError::IoError(
                            String::from_str("Foreign read returned an invalid count"),
                        ),
                    )
                } else {
                    let count = translate_read_count(n);
                    let mut bytes = bytes;
                    bytes.truncate(count);
                    Ok(bytes)
                }
            },
            Err(m) => Err(ExtractError::IoError(m)),
        }
    }

    /// Releases the reader.  The first release issues the one foreign close;
    /// any further release does nothing: the foreign close is issued exactly
    /// once however often this is called, and whatever reads came before.
    pub fn close(&mut self)
        ensures
            final(self).state() == ReaderState::Closed,
            final(self).capacity() == old(self).capacity(),
            old(self).state() == ReaderState::Open ==> final(self).closes_issued() == old(
                self,
            ).closes_issued() + 1,
            old(self).state() == ReaderState::Closed ==> final(self).closes_issued() == old(
                self,
            ).closes_issued(),
    {
        match self.state {
            ReaderState::Open => {
                self.source.close_raw();
                self.state = ReaderState::Closed;
                proof {
                    self.closes_issued@ = self.closes_issued@ + 1;
                }
            },
            ReaderState::Closed => {},
        }
    }

    /// Whether the reader has been released.
    pub fn is_closed(&self) -> (r: bool)
        ensures
            r == (self.state() == ReaderState::Closed),
    {
        match self.state {
            ReaderState::Open => false,
            ReaderState::Closed => true,
        }
    }

    /// The current scratch capacity, as the callers see it.
    pub fn current_capacity(&self) -> (r: usize)
        ensures
            r as nat == self.capacity(),
    {
        self.capacity
    }

    /// Gives the underlying source back, for inspection once the reader is
    /// done.
    pub fn into_source(self) -> R {
        self.source
    }
}

/// An in-memory byte source: a stand-in for the foreign read object, which
/// also records how it was closed.
pub struct VecSource {
    data: Vec<u8>,
    pos: usize,
    closed: bool,
    double_closed: bool,
}

impl VecSource {
    /// A source that yields `data` and then end of stream.
    pub fn new(data: Vec<u8>) -> (r: VecSource)
        ensures
            !r.spec_closed(),
            !r.spec_double_closed(),
    {
        VecSource { data, pos: 0, closed: false, double_closed: false }
    }

    /// Whether a close has been issued.
    pub closed spec fn spec_closed(&self) -> bool {
        self.closed
    }

    /// Whether a second close was ever issued.
    pub closed spec fn spec_double_closed(&self) -> bool {
        self.double_closed
    }

    /// Whether a close has been issued.
    pub fn was_closed(&self) -> (r: bool)
        ensures
            r == self.spec_closed(),
    {
        self.closed
    }

    /// Whether a second close was ever issued: the reader above never lets
    /// this happen.
    pub fn was_double_closed(&self) -> (r: bool)
        ensures
            r == self.spec_double_closed(),
    {
        self.double_closed
    }
}

impl ForeignReader for VecSource {
    fn read_raw(&mut self, max_len: usize) -> (r: Result<(Vec<u8>, i32), String>) {
        if self.pos >= self.data.len() {
            return Ok((Vec::new(), -1i32));
        }
        let remaining = self.data.len() - self.pos;
        let mut take: usize = if max_len < remaining {
            max_len
        } else {
            remaining
        };
        if take > 0x7fff_ffff {
            take = 0x7fff_ffff;
        }
        let mut out: Vec<u8> = Vec::new();
        let mut i: usize = 0;
        #[verifier::loop_isolation(false)]
        while i < take
            invariant
                i <= take,
                out@.len() == i,
            decreases take - i,
        {
            out.push(self.data[self.pos + i]);
            i = i + 1;
        }
        self.pos = self.pos + take;
        Ok((out, take as i32))
    }

    fn close_raw(&mut self) {
        if self.closed {
            self.double_closed = true;
        }
        self.closed = true;
    }
}

} // verus!
