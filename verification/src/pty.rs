//! The terminal-session registry: which PTY ids are live and how fresh
//! ids are handed out. Opening the PTY, pumping its bytes and killing
//! the child process are the hosting application's; the id bookkeeping
//! and each call's lookup decision are verified here.

use vstd::prelude::*;

verus! {

/// Errors of PTY operations.
#[derive(Debug, Clone, Copy, PartialEq, Eq, Structural)]
pub enum PtyError {
    /// The id names no live terminal session.
    NotFound,
}

impl PtyError {
    /// A human-readable description of the error.
    pub fn message(&self) -> (r: String)
        ensures
            r@ == "PTY not found"@,
    {
        String::from_str("PTY not found")
    }
}

/// The registry of live terminal sessions.
pub struct PtyRegistry {
    pub next_id: u32,
    pub ids: Vec<u32>,
}

impl PtyRegistry {
    /// Whether the id names a live session.
    pub open spec fn contains(self, id: u32) -> bool {
        exists|i: int| 0 <= i < self.ids@.len() && self.ids@[i] == id
    }

    /// The index of the id.
    pub open spec fn index_of(self, id: u32) -> int {
        choose|i: int| 0 <= i < self.ids@.len() && self.ids@[i] == id
    }

    /// Well-formedness: ids unique, all below the next free id.
    pub open spec fn wf(self) -> bool {
        &&& forall|i: int, j: int| 0 <= i < j < self.ids@.len() ==> self.ids@[i] != self.ids@[j]
        &&& forall|i: int| 0 <= i < self.ids@.len() ==> self.ids@[i] < self.next_id
    }

    /// An empty registry; ids start at 1.
    pub fn new() -> (r: Self)
        ensures
            r.wf(),
            r.ids@.len() == 0,
            r.next_id == 1,
    {
        PtyRegistry { next_id: 1, ids: Vec::new() }
    }

    /// Registers a freshly spawned session and returns its id, which
    /// never names an existing session.
    pub fn register(&mut self) -> (r: u32)
        requires
            old(self).wf(),
            old(self).next_id < u32::MAX,
        ensures
            final(self).wf(),
            r == old(self).next_id,
            !old(self).contains(r),
            final(self).ids@ == old(self).ids@.push(r),
            final(self).next_id == old(self).next_id + 1,
    {
        let id = self.next_id;
        self.ids.push(id);
        self.next_id = self.next_id + 1;
        id
    }

    /// The write decision: bytes go to the session exactly when the id
    /// names a live one; the byte transfer itself is the host's.
    pub fn write_pty(&self, pty_id: u32) -> (r: Result<(), PtyError>)
        ensures
            r is Ok <==> self.contains(pty_id),
            r is Err ==> r == Err::<(), PtyError>(PtyError::NotFound),
    {
        let mut k: usize = 0;
        while k < self.ids.len()
            invariant
                k <= self.ids@.len(),
                forall|j: int| 0 <= j < k ==> self.ids@[j] != pty_id,
            decreases self.ids@.len() - k,
        {
            if self.ids[k] == pty_id {
                return Ok(());
            }
            k += 1;
        }
        Err(PtyError::NotFound)
    }

    /// Resizing is accepted and changes nothing: the underlying terminal
    /// library offers no resize after creation, so the request is only
    /// acknowledged.
    pub fn resize_pty(&self, pty_id: u32, cols: u16, rows: u16) -> (r: Result<(), PtyError>)
        ensures
            r is Ok,
    {
        let _ = pty_id;
        let _ = cols;
        let _ = rows;
        Ok(())
    }

    /// Drops the session under the id, always reporting success; the
    /// host releases the terminal and its child process.
    pub fn kill_pty(&mut self, pty_id: u32) -> (r: Result<(), PtyError>)
        requires
            old(self).wf(),
        ensures
            final(self).wf(),
            r is Ok,
            final(self).next_id == old(self).next_id,
            !old(self).contains(pty_id) ==> final(self).ids@ == old(self).ids@,
            old(self).contains(pty_id) ==> final(self).ids@ == old(self).ids@.remove(
                old(self).index_of(pty_id),
            ),
            !final(self).contains(pty_id),
    {
        let mut k: usize = 0;
        while k < self.ids.len()
            invariant
                *self == *old(self),
                self.wf(),
                k <= self.ids@.len(),
                forall|j: int| 0 <= j < k ==> self.ids@[j] != pty_id,
            decreases self.ids@.len() - k,
        {
            if self.ids[k] == pty_id {
                proof {
                    let i = self.index_of(pty_id);
                    assert(self.ids@[k as int] == pty_id);
                    if i != k as int {
                        if i < k as int {
                            assert(self.ids@[i] != self.ids@[k as int]);
                        } else {
                            assert(self.ids@[k as int] != self.ids@[i]);
                        }
                    }
                }
                self.ids.remove(k);
                proof {
                    let oldi = old(self).ids@;
                    assert forall|a: int, b: int|
                        0 <= a < b < self.ids@.len() implies self.ids@[a] != self.ids@[b] by {
                        let oa = if a < k as int { a } else { a + 1 };
                        let ob = if b < k as int { b } else { b + 1 };
                        assert(self.ids@[a] == oldi[oa]);
                        assert(self.ids@[b] == oldi[ob]);
                    }
                    if self.contains(pty_id) {
                        let w = self.index_of(pty_id);
                        let ow = if w < k as int { w } else { w + 1 };
                        assert(oldi[ow] == pty_id);
                        assert(ow != k as int ==> oldi[ow] != oldi[k as int]);
                        assert(false);
                    }
                }
                return Ok(());
            }
            k += 1;
        }
        Ok(())
    }
}

/// The delay before the next output batch is emitted, by recent
/// throughput: a fast path for light output, and heavier throttling as
/// the byte rate climbs.
pub fn emit_delay_for(bytes_per_sec: usize) -> (r: u64)
    ensures
        bytes_per_sec < 50000 ==> r == 16,
        50000 <= bytes_per_sec < 200000 ==> r == 33,
        bytes_per_sec >= 200000 ==> r == 100,
{
    if bytes_per_sec < 50000 {
        16
    } else if bytes_per_sec < 200000 {
        33
    } else {
        100
    }
}

/// Whether the accumulated output batch is emitted now: immediately for
/// interactive output (light throughput with a newline), when the
/// throughput-dependent delay has elapsed, or when the batch has grown
/// past the size bound.
pub fn should_emit(
    bytes_per_sec: usize,
    has_newline: bool,
    elapsed_ms: u64,
    batch_len: usize,
) -> (r: bool)
    ensures
        r == ((bytes_per_sec < 50000 && has_newline) || elapsed_ms >= (
        if bytes_per_sec < 50000 {
            16u64
        } else if bytes_per_sec < 200000 {
            33u64
        } else {
            100u64
        }) || batch_len > 32768),
{
    let interactive = bytes_per_sec < 50000 && has_newline;
    interactive || elapsed_ms >= emit_delay_for(bytes_per_sec) || batch_len > 32768
}

} // verus!
