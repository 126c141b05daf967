//! The reconnecting event-listener state machine and the process-wide
//! control slot that holds the one active cancellation token.
//!
//! The machine decides; a driver performs: it connects, reads chunks,
//! sleeps, and reports each outcome back. Cancellation is cooperative: the
//! driver checks its token at every suspension point and, once it observes
//! the signal, reports it and stops. The slot guarantees that at most one
//! token is ever active, so at most one listener survives its next check.

use vstd::prelude::*;

use crate::frames::drain;
use crate::frames::SseParser;
use crate::numfmt::dec_digits;

verus! {

/// Delay before reconnecting after a dropped or failed stream.
pub const RETRY_DELAY_MS: u64 = 1000;

/// Delay before reconnecting after a response with a bad status code.
pub const BAD_STATUS_DELAY_MS: u64 = 2000;

/// Where the listener stands between two driver callbacks.
#[derive(Clone, Copy, PartialEq, Eq, Structural, Debug)]
pub enum SseState {
    /// About to attempt an HTTP connection.
    Connecting,
    /// Reading the response byte stream.
    Streaming,
    /// Waiting out a delay before the next connection attempt.
    Retrying,
    /// Terminal: cancellation was observed.
    Stopped,
}

/// The error payload emitted for a response with status `status`:
/// "SSE HTTP " followed by the status in decimal.
pub open spec fn status_message(status: nat) -> Seq<u8> {
    seq![83u8, 83u8, 69u8, 32u8, 72u8, 84u8, 84u8, 80u8, 32u8] + dec_digits(status)
}

/// One listener instance: the state machine of a single background task,
/// with its parse buffer and its two backoff delays.
pub struct SseListener {
    /// Current state.
    pub state: SseState,
    /// Accumulates stream bytes; reset on every new connection.
    pub parser: SseParser,
    /// Delay after a dropped or failed stream, in milliseconds.
    pub retry_delay_ms: u64,
    /// Delay after a bad response status, in milliseconds.
    pub bad_status_delay_ms: u64,
}

impl SseListener {
    /// A fresh listener, about to make its first connection attempt.
    pub fn new() -> (r: SseListener)
        ensures
            r.state == SseState::Connecting,
            r.parser.buf() == Seq::<u8>::empty(),
            r.retry_delay_ms == RETRY_DELAY_MS,
            r.bad_status_delay_ms == BAD_STATUS_DELAY_MS,
    {
        SseListener {
            state: SseState::Connecting,
            parser: SseParser::new(),
            retry_delay_ms: RETRY_DELAY_MS,
            bad_status_delay_ms: BAD_STATUS_DELAY_MS,
        }
    }

    /// The driver observed the cancellation signal: stop, from any state,
    /// emitting nothing. `Stopped` is terminal: no other transition applies
    /// to it, so a cancelled listener never emits again.
    pub fn on_cancel(&mut self)
        ensures
            final(self).state == SseState::Stopped,
            final(self).retry_delay_ms == old(self).retry_delay_ms,
            final(self).bad_status_delay_ms == old(self).bad_status_delay_ms,
    {
        self.state = SseState::Stopped;
    }

    /// The connection attempt got a success-status response: start
    /// streaming, with an empty parse buffer.
    pub fn on_connect_success(&mut self)
        requires
            old(self).state == SseState::Connecting,
        ensures
            final(self).state == SseState::Streaming,
            final(self).parser.buf() == Seq::<u8>::empty(),
            final(self).retry_delay_ms == old(self).retry_delay_ms,
            final(self).bad_status_delay_ms == old(self).bad_status_delay_ms,
    {
        self.parser.reset();
        self.state = SseState::Streaming;
    }

    /// The connection attempt got a response with a non-success status:
    /// exactly one error payload naming the status is emitted, and the
    /// listener retries after the bad-status delay.
    pub fn on_connect_bad_status(&mut self, status: u16) -> (r: (Vec<u8>, u64))
        requires
            old(self).state == SseState::Connecting,
        ensures
            final(self).state == SseState::Retrying,
            r.0@ == status_message(status as nat),
            r.1 == old(self).bad_status_delay_ms,
            final(self).retry_delay_ms == old(self).retry_delay_ms,
            final(self).bad_status_delay_ms == old(self).bad_status_delay_ms,
    {
        let mut msg: Vec<u8> = Vec::new();
        msg.push(83);
        msg.push(83);
        msg.push(69);
        msg.push(32);
        msg.push(72);
        msg.push(84);
        msg.push(84);
        msg.push(80);
        msg.push(32);
        let mut digits = crate::numfmt::u16_to_decimal(status);
        msg.append(&mut digits);
        assert(msg@ =~= status_message(status as nat));
        self.state = SseState::Retrying;
        (msg, self.bad_status_delay_ms)
    }

    /// The connection attempt failed in transport: exactly one error payload
    /// carrying the cause verbatim is emitted, and the listener retries
    /// after the standard delay.
    pub fn on_connect_failure(&mut self, cause: String) -> (r: (String, u64))
        requires
            old(self).state == SseState::Connecting,
        ensures
            final(self).state == SseState::Retrying,
            r.0 == cause,
            r.1 == old(self).retry_delay_ms,
            final(self).retry_delay_ms == old(self).retry_delay_ms,
            final(self).bad_status_delay_ms == old(self).bad_status_delay_ms,
    {
        self.state = SseState::Retrying;
        let delay = self.retry_delay_ms;
        (cause, delay)
    }

    /// A chunk of the stream arrived: the payloads of all frames it
    /// completes are emitted, in stream order, and streaming goes on.
    pub fn on_chunk(&mut self, chunk: &Vec<u8>) -> (evs: Vec<Vec<u8>>)
        requires
            old(self).state == SseState::Streaming,
        ensures
            final(self).state == SseState::Streaming,
            evs.deep_view() == drain(old(self).parser.buf() + chunk@).0,
            final(self).parser.buf() == drain(old(self).parser.buf() + chunk@).1,
            final(self).retry_delay_ms == old(self).retry_delay_ms,
            final(self).bad_status_delay_ms == old(self).bad_status_delay_ms,
    {
        self.parser.push_chunk(chunk)
    }

    /// The stream ended without an error: nothing is emitted, and the
    /// listener retries after the standard delay.
    pub fn on_stream_end(&mut self) -> (delay: u64)
        requires
            old(self).state == SseState::Streaming,
        ensures
            final(self).state == SseState::Retrying,
            delay == old(self).retry_delay_ms,
            final(self).retry_delay_ms == old(self).retry_delay_ms,
            final(self).bad_status_delay_ms == old(self).bad_status_delay_ms,
    {
        self.state = SseState::Retrying;
        self.retry_delay_ms
    }

    /// The stream failed: exactly one error payload carrying the cause
    /// verbatim is emitted, and the listener retries after the standard
    /// delay.
    pub fn on_stream_error(&mut self, cause: String) -> (r: (String, u64))
        requires
            old(self).state == SseState::Streaming,
        ensures
            final(self).state == SseState::Retrying,
            r.0 == cause,
            r.1 == old(self).retry_delay_ms,
            final(self).retry_delay_ms == old(self).retry_delay_ms,
            final(self).bad_status_delay_ms == old(self).bad_status_delay_ms,
    {
        self.state = SseState::Retrying;
        let delay = self.retry_delay_ms;
        (cause, delay)
    }

    /// The retry delay elapsed without a cancellation: connect again. The
    /// loop never gives up on its own; only `on_cancel` ends it.
    pub fn on_retry_elapsed(&mut self)
        requires
            old(self).state == SseState::Retrying,
        ensures
            final(self).state == SseState::Connecting,
            final(self).retry_delay_ms == old(self).retry_delay_ms,
            final(self).bad_status_delay_ms == old(self).bad_status_delay_ms,
    {
        self.state = SseState::Connecting;
    }
}

/// The one shared control slot: it holds at most one active cancellation
/// token at any time. Tokens are numbered in the order they are issued and
/// never reused; the driver keeps, outside this model, the actual signal
/// channel behind each token.
pub struct ListenerSlot {
    active: Option<u64>,
    next_token: u64,
}

impl ListenerSlot {
    /// The token of the currently active listener, if one is active.
    pub closed spec fn active_token(self) -> Option<u64> {
        self.active
    }

    /// How many tokens were ever issued.
    pub closed spec fn issued(self) -> int {
        self.next_token as int
    }

    /// An active token is one that was issued.
    pub closed spec fn wf(self) -> bool {
        match self.active {
            Some(t) => t < self.next_token,
            None => true,
        }
    }

    /// What `start` does: retire the active token, if any, and install a
    /// fresh one.
    pub closed spec fn start_spec(self) -> (ListenerSlot, Option<u64>, u64) {
        (
            ListenerSlot { active: Some(self.next_token), next_token: (self.next_token + 1) as u64 },
            self.active,
            self.next_token,
        )
    }

    /// A fresh slot: nothing active, nothing issued.
    pub fn new() -> (r: ListenerSlot)
        ensures
            r.active_token() is None,
            r.issued() == 0,
            r.wf(),
    {
        ListenerSlot { active: None, next_token: 0 }
    }

    /// How many tokens were ever issued, for a caller that must stay under
    /// the counter's limit before calling `start`.
    pub fn tokens_issued(&self) -> (r: u64)
        ensures
            r as int == self.issued(),
    {
        self.next_token
    }

    /// Starts a new listener: the previously active token, which the caller
    /// must signal before anything else, is handed back retired, and a fresh
    /// token — never issued before — becomes the one active token.
    pub fn start(&mut self) -> (r: (Option<u64>, u64))
        requires
            old(self).wf(),
            old(self).issued() < u64::MAX,
        ensures
            (*final(self), r.0, r.1) == old(self).start_spec(),
            final(self).wf(),
            final(self).active_token() == Some(r.1),
            r.0 == old(self).active_token(),
            r.0 is Some ==> r.0->0 != r.1,
            final(self).issued() == old(self).issued() + 1,
    {
        let retired = self.active.take();
        let token = self.next_token;
        self.active = Some(token);
        self.next_token = token + 1;
        (retired, token)
    }

    /// Stops the active listener, if any: its token is handed back for
    /// signalling and the slot is left empty. With no listener active this
    /// is a no-op: nothing to signal comes back and the slot is unchanged.
    pub fn stop(&mut self) -> (r: Option<u64>)
        requires
            old(self).wf(),
        ensures
            r == old(self).active_token(),
            final(self).active_token() is None,
            final(self).issued() == old(self).issued(),
            final(self).wf(),
            old(self).active_token() is None ==> *final(self) == *old(self),
    {
        self.active.take()
    }

    /// A task that ended on its own clears the slot only if it still owns
    /// it: a stale task must never clear a newer task's token.
    pub fn finish(&mut self, token: u64)
        requires
            old(self).wf(),
        ensures
            final(self).active_token() == if old(self).active_token() == Some(token) {
                Option::<u64>::None
            } else {
                old(self).active_token()
            },
            final(self).issued() == old(self).issued(),
            final(self).wf(),
    {
        match self.active {
            Some(t) => {
                if t == token {
                    self.active = None;
                }
            },
            None => {},
        }
    }
}

/// Tokens are never reused: each `start` retires exactly the previously
/// active token, issues the next token in counting order — so one differing
/// from every token issued before it — and leaves that one token as the
/// sole active one. So along any sequence of starts the active token is
/// always the latest, and a signal sent on a retired token can never reach
/// a newer listener.
pub proof fn lemma_start_issues_fresh(s: ListenerSlot)
    requires
        s.wf(),
        s.issued() < u64::MAX,
    ensures
        ({
            let (s1, retired, t) = s.start_spec();
            &&& s1.wf()
            &&& s1.active_token() == Some(t)
            &&& retired == s.active_token()
            &&& s1.issued() == s.issued() + 1
            &&& t as int == s.issued()
        }),
{
}

/// At most one listener is ever active: after a second `start`, the one
/// active token is the second start's, the first start's token is exactly
/// what came back retired for signalling, and the two differ — so the first
/// listener observes its own stale signal at its next suspension point and
/// stops, while only the second goes on emitting.
pub proof fn lemma_second_start_supersedes(s0: ListenerSlot)
    requires
        s0.wf(),
        s0.issued() + 1 < u64::MAX,
    ensures
        ({
            let (s1, retired1, t1) = s0.start_spec();
            let (s2, retired2, t2) = s1.start_spec();
            &&& s1.active_token() == Some(t1)
            &&& s2.active_token() == Some(t2)
            &&& retired2 == Some(t1)
            &&& t1 != t2
            &&& s1.wf()
            &&& s2.wf()
        }),
{
}

} // verus!
