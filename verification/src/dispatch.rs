//! The execution dispatcher: per-message state machine, subject parsing
//! and reply formation.
//!
//! The embedder subscribes to the executions subject pattern as one member
//! of a competing-consumer group and drives each inbound message through
//! [`ExecutionRequest::begin`] (checkout), its own blocking interpreter
//! call, and [`ExecutionRequest::finish`] (return the slot and form the
//! reply). A failure of one request never carries beyond its reply.

use vstd::prelude::*;

use crate::errors::{CallError, DispatchError};
use crate::pool::{InterpreterPool, PoolCheckout};

verus! {

/// Subject prefix for execution requests; the function name is the final
/// token of the subject.
pub fn executions_subject_prefix() -> (s: &'static str)
    ensures
        s@ == "deadlift.executions."@,
{
    "deadlift.executions."
}

/// The competing-consumer group all agents of one deployment share: each
/// message is handled by exactly one member.
pub fn executions_queue_group() -> (s: &'static str)
    ensures
        s@ == "deadlift_executions"@,
{
    "deadlift_executions"
}

/// The final `.`-separated token of `s`: the whole of `s` when it has no
/// dot, the part after the last dot otherwise.
pub open spec fn final_token(s: Seq<char>) -> Seq<char>
    decreases s.len(),
{
    if s.len() == 0 {
        s
    } else if s.last() == '.' {
        Seq::empty()
    } else {
        final_token(s.drop_last()).push(s.last())
    }
}

/// The function a subject names: its final token.
#[verifier::loop_isolation(false)]
pub fn function_name_from_subject(subject: &str) -> (r: String)
    ensures
        r@ == final_token(subject@),
{
    let n = subject.unicode_len();
    let mut start: usize = 0;
    let mut i: usize = 0;
    proof {
        assert(subject@.subrange(0, 0) =~= Seq::<char>::empty());
    }
    while i < n
        invariant
            i <= n,
            start <= i,
            final_token(subject@.subrange(0, i as int)) == subject@.subrange(
                start as int,
                i as int,
            ),
        decreases n - i,
    {
        let ghost pre = subject@.subrange(0, i as int);
        let ghost ext = subject@.subrange(0, i as int + 1);
        proof {
            assert(ext.drop_last() =~= pre);
            assert(ext.last() == subject@[i as int]);
        }
        let c = subject.get_char(i);
        if c == '.' {
            proof {
                assert(subject@.subrange(i as int + 1, i as int + 1) =~= Seq::<char>::empty());
            }
            start = i + 1;
        } else {
            proof {
                assert(subject@.subrange(start as int, i as int).push(subject@[i as int])
                    =~= subject@.subrange(start as int, i as int + 1));
            }
        }
        i = i + 1;
    }
    proof {
        assert(subject@.subrange(0, n as int) =~= subject@);
    }
    let token = subject.substring_char(start, n);
    String::from_str(token)
}

/// Lifecycle of one inbound message.
#[derive(PartialEq, Eq, Structural, Clone, Copy, Debug)]
pub enum RequestPhase {
    /// The message has arrived.
    Received,
    /// An interpreter slot is being acquired.
    PoolCheckout,
    /// The sandboxed call is running.
    Invoking,
    /// A reply or an error payload has been formed.
    RepliedOrFailed,
    /// The request is finished; nothing more will be published for it.
    Done,
}

/// Position of a phase in the lifecycle.
pub open spec fn phase_index(p: RequestPhase) -> int {
    match p {
        RequestPhase::Received => 0,
        RequestPhase::PoolCheckout => 1,
        RequestPhase::Invoking => 2,
        RequestPhase::RepliedOrFailed => 3,
        RequestPhase::Done => 4,
    }
}

/// One inbound unit of work: subject, payload and optional reply address.
/// Created per bus message; destroyed once its reply is published or it
/// failed.
pub struct ExecutionRequest {
    /// The subject the message arrived on; its final token names the
    /// function to invoke.
    pub subject: String,
    /// The request payload handed to the function.
    pub payload: Vec<u8>,
    /// Where to publish the reply; `None` makes the request
    /// fire-and-forget: no ack, no retry, any result is discarded.
    pub reply_to: Option<String>,
    /// Where the request stands in its lifecycle.
    pub phase: RequestPhase,
}

/// The reply payload an outcome produces: the function's return bytes on
/// success, the human-readable error text on failure.
pub open spec fn reply_bytes_of(outcome: Result<Vec<u8>, CallError>) -> Seq<u8> {
    match outcome {
        Ok(b) => b@,
        Err(e) => vstd::utf8::encode_utf8(e.message_view()),
    }
}

/// Forms the reply payload for an outcome: result bytes, or the error's
/// message so that the caller sees a textual error payload.
pub fn reply_payload(outcome: Result<Vec<u8>, CallError>) -> (r: Vec<u8>)
    ensures
        r@ == reply_bytes_of(outcome),
{
    match outcome {
        Ok(b) => b,
        Err(e) => {
            let m = e.message();
            m.as_str().as_bytes_vec()
        },
    }
}

impl ExecutionRequest {
    /// Wraps one inbound bus message.
    pub fn new(subject: String, payload: Vec<u8>, reply_to: Option<String>) -> (r:
        ExecutionRequest)
        ensures
            r.subject@ == subject@,
            r.payload@ == payload@,
            match reply_to {
                Some(a) => r.reply_to matches Some(b) && b@ == a@,
                None => r.reply_to is None,
            },
            r.phase is Received,
    {
        ExecutionRequest { subject, payload, reply_to, phase: RequestPhase::Received }
    }

    /// The name of the function this request invokes.
    pub fn function_name(&self) -> (r: String)
        ensures
            r@ == final_token(self.subject@),
    {
        function_name_from_subject(self.subject.as_str())
    }

    /// Acquires an interpreter slot for this request. On success the
    /// request is invoking; a checkout that cannot be granted now is a
    /// timeout, and the request has failed.
    pub fn begin(&mut self, pool: &mut InterpreterPool, key: &str) -> (r: Result<
        PoolCheckout,
        DispatchError,
    >)
        requires
            old(self).phase is Received,
            old(pool)@.wf(),
        ensures
            final(self).subject@ == old(self).subject@,
            final(self).payload@ == old(self).payload@,
            final(self).reply_to == old(self).reply_to,
            phase_index(final(self).phase) > phase_index(old(self).phase),
            final(pool)@.key == old(pool)@.key,
            final(pool)@.version == old(pool)@.version,
            final(pool)@.manifest == old(pool)@.manifest,
            final(pool)@.slots.len() == old(pool)@.slots.len(),
            final(pool)@.wf(),
            match r {
                Ok(c) => {
                    &&& final(self).phase is Invoking
                    &&& c.valid(final(pool)@)
                    &&& c.observed@ == old(pool)@.manifest
                    &&& old(pool)@.busy_count() < old(pool)@.capacity()
                    &&& final(pool)@.busy_count() == old(pool)@.busy_count() + 1
                },
                Err(e) => {
                    &&& final(self).phase is RepliedOrFailed
                    &&& e is Timeout
                    &&& final(pool)@ == old(pool)@
                    &&& (key@ != old(pool)@.key || old(pool)@.busy_count() == old(
                        pool,
                    )@.capacity())
                },
            },
    {
        self.phase = RequestPhase::PoolCheckout;
        match pool.try_checkout(key) {
            Some(c) => {
                self.phase = RequestPhase::Invoking;
                Ok(c)
            },
            None => {
                self.phase = RequestPhase::RepliedOrFailed;
                Err(DispatchError::Timeout)
            },
        }
    }

    /// Completes this request: returns the slot and forms the reply. With
    /// a reply address present, the outcome's payload is published there;
    /// without one the request is fire-and-forget and any result is
    /// discarded.
    pub fn finish(&mut self, pool: &mut InterpreterPool, c: PoolCheckout, outcome: Result<
        Vec<u8>,
        CallError,
    >) -> (r: Option<(String, Vec<u8>)>)
        requires
            old(self).phase is Invoking,
            old(pool)@.wf(),
            (c.slot as int) < old(pool)@.slots.len(),
            old(pool)@.slots[c.slot as int].busy,
        ensures
            final(self).subject@ == old(self).subject@,
            final(self).payload@ == old(self).payload@,
            final(self).phase is Done,
            phase_index(final(self).phase) > phase_index(old(self).phase),
            final(pool)@.key == old(pool)@.key,
            final(pool)@.version == old(pool)@.version,
            final(pool)@.manifest == old(pool)@.manifest,
            final(pool)@.wf(),
            final(pool)@.busy_count() == old(pool)@.busy_count() - 1,
            match old(self).reply_to {
                Some(addr) => r matches Some((a, bytes)) && a@ == addr@ && bytes@
                    == reply_bytes_of(outcome),
                None => r is None,
            },
    {
        pool.checkin(c);
        self.phase = RequestPhase::Done;
        let mut reply_to: Option<String> = None;
        core::mem::swap(&mut reply_to, &mut self.reply_to);
        match reply_to {
            Some(addr) => Some((addr, reply_payload(outcome))),
            None => None,
        }
    }
}

} // verus!
