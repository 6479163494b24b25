//! The transport bridge's buffer bookkeeping. One concrete byte stream is
//! driven through two asynchronous read styles: a buffer-cursor style, where
//! the callee advances a cursor over a caller-owned region, and a
//! size-returning style, where the caller's buffer tracks separately how many
//! bytes are filled (valid data) and how many are initialized (safe to read).
//! Each direction of the bridge delegates to the other style's native read
//! and then adjusts the bookkeeping; the functions here carry that
//! bookkeeping with its safety contract: a fill count never exceeds the
//! declared capacity, only written bytes are exposed, and a pending poll
//! stays distinguishable from end-of-stream.

use vstd::prelude::*;

verus! {

/// A caller-owned read buffer: a fixed capacity, the bytes actually written
/// so far (the filled prefix), and how many leading bytes count as
/// initialized.
pub struct ReadBuffer {
    pub capacity: usize,
    pub data: Vec<u8>,
    pub initialized: usize,
}

impl ReadBuffer {
    /// Bookkeeping soundness: the filled prefix holds only written bytes,
    /// every filled byte is initialized, and nothing beyond the declared
    /// capacity is claimed.
    pub open spec fn wf(&self) -> bool {
        self.data@.len() <= self.initialized <= self.capacity
    }

    /// How many bytes are filled.
    pub open spec fn spec_filled(&self) -> int {
        self.data@.len() as int
    }

    /// An empty buffer of the given capacity, with nothing filled and
    /// nothing initialized.
    pub fn new(capacity: usize) -> (r: ReadBuffer)
        ensures
            r.wf(),
            r.capacity == capacity,
            r.data@ == Seq::<u8>::empty(),
            r.initialized == 0,
    {
        ReadBuffer { capacity, data: Vec::new(), initialized: 0 }
    }

    /// The unfilled room: the size of the region a native read is handed.
    pub fn remaining(&self) -> (n: usize)
        requires
            self.wf(),
        ensures
            n == self.capacity - self.spec_filled(),
    {
        self.capacity - self.data.len()
    }
}

/// What one poll of the wrapped stream's native read produced: not ready
/// yet, or the bytes it wrote into the region it was handed. An empty chunk
/// is end-of-stream.
pub enum ReadPoll {
    Pending,
    Ready(Vec<u8>),
}

/// What the bridge reports to its own caller: still pending, or a count of
/// newly filled bytes, where zero means end-of-stream. The two zero-progress
/// outcomes are distinct variants and are never conflated.
pub enum BridgePoll {
    Pending,
    Filled(usize),
}

/// Drive the buffer-cursor style by a native size-returning read: the chunk
/// the native read filled lands at the cursor, and the cursor advances by
/// exactly its length, marking the written bytes initialized.
pub fn poll_read_cursor(buf: &mut ReadBuffer, inner: ReadPoll) -> (r: BridgePoll)
    requires
        old(buf).wf(),
        inner matches ReadPoll::Ready(c) ==> c@.len() <= old(buf).capacity - old(
            buf,
        ).spec_filled(),
    ensures
        final(buf).wf(),
        final(buf).capacity == old(buf).capacity,
        match inner {
            ReadPoll::Pending => r == BridgePoll::Pending && *final(buf) == *old(buf),
            ReadPoll::Ready(c) => r == BridgePoll::Filled(c.len()) && final(buf).data@ == old(
                buf,
            ).data@ + c@ && final(buf).initialized == (if old(buf).initialized
                >= old(buf).spec_filled() + c@.len() {
                old(buf).initialized as int
            } else {
                old(buf).spec_filled() + c@.len()
            }),
        },
        r matches BridgePoll::Filled(n) ==> old(buf).spec_filled() + n == final(buf).spec_filled()
            <= final(buf).capacity,
        (r == BridgePoll::Filled(0usize)) <==> (inner matches ReadPoll::Ready(c) && c@.len() == 0),
{
    match inner {
        ReadPoll::Pending => BridgePoll::Pending,
        ReadPoll::Ready(c) => {
            let n = c.len();
            let mut chunk = c;
            buf.data.append(&mut chunk);
            // Advancing the cursor past the written bytes marks them
            // initialized.
            if buf.initialized < buf.data.len() {
                buf.initialized = buf.data.len();
            }
            BridgePoll::Filled(n)
        },
    }
}

/// Drive the size-returning style by a native buffer-cursor read: the bytes
/// the cursor advanced over are appended at the filled mark, the filled
/// count grows by exactly that much, and exactly the newly filled bytes are
/// newly marked initialized.
pub fn poll_read_sized(buf: &mut ReadBuffer, inner: ReadPoll) -> (r: BridgePoll)
    requires
        old(buf).wf(),
        inner matches ReadPoll::Ready(c) ==> c@.len() <= old(buf).capacity - old(
            buf,
        ).spec_filled(),
    ensures
        final(buf).wf(),
        final(buf).capacity == old(buf).capacity,
        match inner {
            ReadPoll::Pending => r == BridgePoll::Pending && *final(buf) == *old(buf),
            ReadPoll::Ready(c) => r == BridgePoll::Filled(c.len()) && final(buf).data@ == old(
                buf,
            ).data@ + c@ && final(buf).initialized == (if old(buf).initialized
                >= old(buf).spec_filled() + c@.len() {
                old(buf).initialized as int
            } else {
                old(buf).spec_filled() + c@.len()
            }),
        },
        r matches BridgePoll::Filled(n) ==> old(buf).spec_filled() + n == final(buf).spec_filled()
            <= final(buf).capacity,
        (r == BridgePoll::Filled(0usize)) <==> (inner matches ReadPoll::Ready(c) && c@.len() == 0),
{
    match inner {
        ReadPoll::Pending => BridgePoll::Pending,
        ReadPoll::Ready(c) => {
            let filled = buf.data.len();
            let sub_filled = c.len();
            let n_filled = filled + sub_filled;
            let mut chunk = c;
            buf.data.append(&mut chunk);
            // The delegated read initialized exactly what it filled; keep
            // any longer initialized prefix the buffer already had.
            if buf.initialized < n_filled {
                buf.initialized = n_filled;
            }
            BridgePoll::Filled(sub_filled)
        },
    }
}

} // verus!
