//! The console session: one growing output buffer and the rule that decides
//! when the remote side has reached an expected prompt.
//!
//! The session owns no transport.  The unverified shell performs the actual
//! reads and writes and feeds the resulting byte chunks (or the terminal
//! conditions end-of-input and read failure) into [`Session::on_event`]; the
//! session decides what they mean.

use vstd::prelude::*;

use crate::text::push_all;

verus! {

/// The line-feed byte.
pub const LF: u8 = 10;

/// The carriage-return byte.
pub const CR: u8 = 13;

/// True exactly when `b` ends with a line feed or carriage return followed by
/// `p`.  A buffer that ends with `p` alone, with no separator byte before it,
/// does not match.
pub open spec fn tail_matches(b: Seq<u8>, p: Seq<u8>) -> bool {
    &&& b.len() > p.len()
    &&& b.subrange(b.len() - p.len(), b.len() as int) == p
    &&& (b[b.len() - p.len() - 1] == LF || b[b.len() - p.len() - 1] == CR)
}

/// `tail_matches(b, p)` holds exactly when `b` splits as some prefix, then a
/// line-feed or carriage-return byte, then `p` — and for no other suffix
/// shape, in particular not for `p` alone at the end of the buffer.
pub proof fn lemma_tail_matches_iff(b: Seq<u8>, p: Seq<u8>)
    ensures
        tail_matches(b, p) <==> exists|pre: Seq<u8>|
            b == pre + seq![LF] + p || b == pre + seq![CR] + p,
{
    if tail_matches(b, p) {
        let pre = b.take(b.len() - p.len() - 1);
        if b[b.len() - p.len() - 1] == LF {
            assert(b =~= pre + seq![LF] + p);
        } else {
            assert(b =~= pre + seq![CR] + p);
        }
    }
    if exists|pre: Seq<u8>| b == pre + seq![LF] + p || b == pre + seq![CR] + p {
        let pre = choose|pre: Seq<u8>| b == pre + seq![LF] + p || b == pre + seq![CR] + p;
        assert(b.len() == pre.len() + 1 + p.len());
        assert(b.subrange(b.len() - p.len(), b.len() as int) =~= p);
        assert(b[b.len() - p.len() - 1] == LF || b[b.len() - p.len() - 1] == CR);
    }
}

/// One inbound event observed while awaiting a prompt.
pub enum SessionEvent {
    /// A chunk of bytes arrived from the remote side.
    Received(Vec<u8>),
    /// The inbound stream reported end-of-input with zero bytes read.
    Closed,
    /// The inbound stream reported a read error.
    ReadFailed,
}

/// A fatal session failure; neither is retried.
#[derive(Clone, Copy, Debug, PartialEq, Eq, Structural)]
pub enum SessionError {
    /// The remote side closed the connection.
    RemoteClosed,
    /// Reading from the transport failed.
    TransportRead,
}

/// What one event did to an in-progress prompt wait.
pub enum WaitOutcome {
    /// The buffer now ends at the expected prompt; it was drained and its
    /// whole contents are returned.
    Matched(Vec<u8>),
    /// No match yet; keep waiting for more input.
    Pending,
    /// A terminal condition arrived.
    Failed(SessionError),
}

/// One console connection's accumulated output.
///
/// The buffer is append-only: it grows by sent-byte echo and received chunks,
/// and shrinks only when it is drained after a successful prompt match.
///
/// An operator-directed restart of an exchange deliberately leaves the
/// buffer as it is: bytes the remote side had already produced for the
/// abandoned attempt are consumed as if they belonged to the next one, since
/// the remote end's single cursor of interaction state has no notion of the
/// local attempt boundary.
pub struct Session {
    buffer: Vec<u8>,
}

impl Session {
    /// Everything emitted (and echoed) since session start or the last drain.
    pub closed spec fn buffered(&self) -> Seq<u8> {
        self.buffer@
    }

    /// A fresh session with an empty buffer.
    pub fn new() -> (s: Session)
        ensures
            s.buffered() == Seq::<u8>::empty(),
    {
        Session { buffer: Vec::new() }
    }

    /// Record bytes that were just written to the remote side.  The local
    /// terminal would echo typed input to the screen, so sent bytes are
    /// appended to the output buffer as if the remote side had printed them.
    pub fn note_sent(&mut self, data: &[u8])
        ensures
            final(self).buffered() == old(self).buffered() + data@,
    {
        push_all(&mut self.buffer, data);
    }

    /// Append a chunk read from the remote side.
    pub fn absorb(&mut self, chunk: &[u8])
        ensures
            final(self).buffered() == old(self).buffered() + chunk@,
    {
        push_all(&mut self.buffer, chunk);
    }

    /// Does the buffer currently end at `prompt` (preceded by a line feed or
    /// carriage return)?
    pub fn prompt_reached(&self, prompt: &[u8]) -> (r: bool)
        ensures
            r == tail_matches(self.buffered(), prompt@),
    {
        if self.buffer.len() <= prompt.len() {
            return false;
        }
        let sep = self.buffer[self.buffer.len() - prompt.len() - 1];
        if sep != LF && sep != CR {
            return false;
        }
        let mut i: usize = 0;
        let start = self.buffer.len() - prompt.len();
        while i < prompt.len()
            invariant
                i <= prompt@.len(),
                start == self.buffer@.len() - prompt@.len(),
                self.buffer@.len() > prompt@.len(),
                self.buffer@.len() <= usize::MAX,
                forall|j: int| 0 <= j < i ==> self.buffer@[start + j] == prompt@[j],
            decreases prompt@.len() - i,
        {
            if self.buffer[start + i] != prompt[i] {
                assert(self.buffered().subrange(
                    self.buffered().len() - prompt@.len(),
                    self.buffered().len() as int,
                )[i as int] != prompt@[i as int]);
                return false;
            }
            i = i + 1;
        }
        assert(self.buffered().subrange(
            self.buffered().len() - prompt@.len(),
            self.buffered().len() as int,
        ) =~= prompt@);
        true
    }

    /// Take everything accumulated since the previous drain (or session
    /// start); the internal buffer is empty immediately afterwards.
    pub fn drain(&mut self) -> (out: Vec<u8>)
        ensures
            out@ == old(self).buffered(),
            final(self).buffered() == Seq::<u8>::empty(),
    {
        let mut out: Vec<u8> = Vec::new();
        push_all(&mut out, self.buffer.as_slice());
        self.buffer.clear();
        out
    }

    /// The trailing `n` bytes of the buffer (all of it, if shorter), quoted
    /// in the advisory stall warning when a prompt is slow to arrive.
    pub fn stall_tail(&self, n: usize) -> (r: Vec<u8>)
        ensures
            r@ == if self.buffered().len() <= n {
                self.buffered()
            } else {
                self.buffered().skip(self.buffered().len() - n)
            },
    {
        let start = if self.buffer.len() <= n {
            0
        } else {
            self.buffer.len() - n
        };
        let mut out: Vec<u8> = Vec::new();
        let mut i: usize = start;
        while i < self.buffer.len()
            invariant
                start <= i <= self.buffer@.len(),
                out@ == self.buffer@.subrange(start as int, i as int),
            decreases self.buffer@.len() - i,
        {
            out.push(self.buffer[i]);
            i = i + 1;
            assert(out@ =~= self.buffer@.subrange(start as int, i as int));
        }
        assert(self.buffered().skip(start as int) =~= self.buffered().subrange(
            start as int,
            self.buffered().len() as int,
        ));
        out
    }

    /// Advance a prompt wait by one event.
    ///
    /// A received chunk is appended to the buffer (after local echo of the
    /// sent command, which [`Session::note_sent`] already recorded); if the
    /// buffer then ends at the expected prompt, the whole buffer is drained
    /// and returned.  End-of-input and read failures are fatal and leave the
    /// buffer as it was.
    pub fn on_event(&mut self, prompt: &[u8], ev: SessionEvent) -> (r: WaitOutcome)
        ensures
            match ev {
                SessionEvent::Received(chunk) => {
                    if tail_matches(old(self).buffered() + chunk@, prompt@) {
                        &&& r matches WaitOutcome::Matched(out) && out@ == old(self).buffered()
                            + chunk@
                        &&& final(self).buffered() == Seq::<u8>::empty()
                    } else {
                        &&& r is Pending
                        &&& final(self).buffered() == old(self).buffered() + chunk@
                    }
                },
                SessionEvent::Closed => {
                    &&& r matches WaitOutcome::Failed(e) && e == SessionError::RemoteClosed
                    &&& final(self).buffered() == old(self).buffered()
                },
                SessionEvent::ReadFailed => {
                    &&& r matches WaitOutcome::Failed(e) && e == SessionError::TransportRead
                    &&& final(self).buffered() == old(self).buffered()
                },
            },
    {
        match ev {
            SessionEvent::Received(chunk) => {
                self.absorb(chunk.as_slice());
                if self.prompt_reached(prompt) {
                    WaitOutcome::Matched(self.drain())
                } else {
                    WaitOutcome::Pending
                }
            },
            SessionEvent::Closed => WaitOutcome::Failed(SessionError::RemoteClosed),
            SessionEvent::ReadFailed => WaitOutcome::Failed(SessionError::TransportRead),
        }
    }
}

} // verus!
