//! The readiness probe that gates worker startup.
//!
//! The shell repeatedly opens a short-lived connection, sends one minimal
//! HTTP GET and reads the start of the answer.  Everything it decides with
//! is here: the request bytes, the success test on the answer, and the
//! retry/give-up decision after each attempt.

use vstd::prelude::*;
use crate::text::dec_digits;

verus! {

/// How long the whole probe may take.
pub const PROBE_TIMEOUT_MS: u64 = 8000;

/// Sleep between attempts.
pub const PROBE_SLEEP_MS: u64 = 150;

/// Per-attempt read/write timeout.
pub const PROBE_IO_TIMEOUT_MS: u64 = 250;

/// The request sent on each attempt: a minimal HTTP/1.1 GET that asks the
/// server to close the connection after answering.
pub open spec fn spec_http_get_request(host: Seq<char>, port: nat, path: Seq<char>) -> Seq<char> {
    "GET "@ + path + " HTTP/1.1\r\nHost: "@ + host + ":"@ + dec_digits(port)
        + "\r\nConnection: close\r\n\r\n"@
}

/// Builds the probe request for one attempt.
pub fn http_get_request(host: &str, port: u16, path: &str) -> (r: String)
    ensures
        r@ == spec_http_get_request(host@, port as nat, path@),
{
    let mut r = String::from_str("GET ");
    r.append(path);
    r.append(" HTTP/1.1\r\nHost: ");
    r.append(host);
    r.append(":");
    let digits = crate::text::u64_to_string(port as u64);
    r.append(digits.as_str());
    r.append("\r\nConnection: close\r\n\r\n");
    proof {
        assert(r@ =~= spec_http_get_request(host@, port as nat, path@));
    }
    r
}

/// The index of the first space in `b` at or after `i`, or `b.len()` if
/// there is none.
pub open spec fn first_space(b: Seq<u8>, i: int) -> int
    recommends
        0 <= i <= b.len(),
    decreases b.len() - i,
{
    if i < 0 || i >= b.len() {
        b.len() as int
    } else if b[i] == 32 {
        i
    } else {
        first_space(b, i + 1)
    }
}

proof fn lemma_first_space(b: Seq<u8>, i: int)
    requires
        0 <= i <= b.len(),
    ensures
        i <= first_space(b, i) <= b.len(),
        first_space(b, i) < b.len() ==> b[first_space(b, i)] == 32,
        forall|j: int| i <= j < first_space(b, i) ==> b[j] != 32,
    decreases b.len() - i,
{
    if i < b.len() && b[i] != 32 {
        lemma_first_space(b, i + 1);
    }
}

/// Whether the bytes read back begin with an HTTP 200 status line: the
/// buffer starts with `HTTP/`, and the first space-delimited field after
/// the version is exactly `200` (followed by a space, a carriage return,
/// or the end of what was read).
pub open spec fn spec_answer_ok(b: Seq<u8>) -> bool {
    let sp = first_space(b, 5);
    &&& b.len() >= 5
    &&& b[0] == 72  // 'H'
    &&& b[1] == 84  // 'T'
    &&& b[2] == 84  // 'T'
    &&& b[3] == 80  // 'P'
    &&& b[4] == 47  // '/'
    &&& sp + 4 <= b.len()
    &&& b[sp + 1] == 50  // '2'
    &&& b[sp + 2] == 48  // '0'
    &&& b[sp + 3] == 48  // '0'
    &&& (sp + 4 == b.len() || b[sp + 4] == 32 || b[sp + 4] == 13)
}

/// Success test on the first bytes of an answer: a 200 status line.
pub fn answer_ok(buf: &[u8]) -> (r: bool)
    ensures
        r == spec_answer_ok(buf@),
{
    if buf.len() < 5 {
        return false;
    }
    if buf[0] != 72 || buf[1] != 84 || buf[2] != 84 || buf[3] != 80 || buf[4] != 47 {
        return false;
    }
    let mut i: usize = 5;
    while i < buf.len() && buf[i] != 32
        invariant
            5 <= i <= buf.len(),
            forall|j: int| 5 <= j < i ==> buf@[j] != 32,
        decreases buf.len() - i,
    {
        i = i + 1;
    }
    proof {
        lemma_first_space(buf@, 5);
        let sp = first_space(buf@, 5);
        if sp < i {
            assert(buf@[sp] == 32);
        }
        if sp > i {
            assert(buf@[i as int] != 32);
        }
        assert(sp == i);
    }
    if buf.len() - i < 4 {
        return false;
    }
    if buf[i + 1] != 50 || buf[i + 2] != 48 || buf[i + 3] != 48 {
        return false;
    }
    i + 4 == buf.len() || buf[i + 4] == 32 || buf[i + 4] == 13
}

/// What the probe loop does after one attempt.
#[derive(Debug, Clone, Copy, PartialEq, Eq, Structural)]
pub enum ProbeDecision {
    /// The attempt saw a success status line: report readiness now.
    Ready,
    /// No success yet and time remains: sleep and try again.
    RetryAfterSleep,
    /// No success and the timeout has elapsed: report failure.  The worker
    /// is still spawned afterwards; the outcome is advisory only.
    TimedOut,
}

/// The probe loop's decision after an attempt: success wins immediately,
/// and failure is only declared once the timeout has elapsed.
pub fn probe_decision(attempt_succeeded: bool, elapsed_ms: u64, timeout_ms: u64) -> (r:
    ProbeDecision)
    ensures
        attempt_succeeded ==> r == ProbeDecision::Ready,
        !attempt_succeeded && elapsed_ms < timeout_ms ==> r == ProbeDecision::RetryAfterSleep,
        !attempt_succeeded && elapsed_ms >= timeout_ms ==> r == ProbeDecision::TimedOut,
{
    if attempt_succeeded {
        ProbeDecision::Ready
    } else if elapsed_ms < timeout_ms {
        ProbeDecision::RetryAfterSleep
    } else {
        ProbeDecision::TimedOut
    }
}

} // verus!
