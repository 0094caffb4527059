use vstd::prelude::*;
use crate::text::{find_str, chars_of, string_of_chars, first_occurrence, occurs_at};

verus! {

/// Connection attempts after the first one before giving up.
pub const MAX_RETRIES: u32 = 3;

/// Milliseconds waited after the first failed attempt; the wait doubles after each failure.
pub const INITIAL_BACKOFF_MS: u64 = 1;

/// An address without the scheme it may start with: what follows the first `://`, or the
/// whole address when it holds none.
pub open spec fn strip_scheme_spec(addr: Seq<char>) -> Seq<char> {
    match first_occurrence(addr, "://"@) {
        Some(i) => addr.skip(i + 3),
        None => addr,
    }
}

/// Resolves a hostname and connects with retries; the connecting itself is done by the
/// caller, which asks a `RetrySchedule` what to do after each failed attempt.
pub struct DnsResolver;

impl DnsResolver {
    /// The address without its scheme (see `strip_scheme_spec`), as in
    /// `http://proxy.example.com:3128` → `proxy.example.com:3128`.
    pub fn strip_scheme(addr: &str) -> (r: String)
        ensures
            r@ == strip_scheme_spec(addr@),
    {
        proof { reveal_strlit("://"); }
        match find_str(addr, "://") {
            Some(i) => {
                let v = chars_of(addr);
                let n = v.len();
                assert(occurs_at(addr@, "://"@, i as int));
                let rest = string_of_chars(&v, i + 3, n);
                assert(rest@ =~= addr@.skip(i + 3));
                rest
            },
            None => String::from_str(addr),
        }
    }
}

/// The retry schedule of one connection: failed attempts are counted, and after each one
/// the caller either waits the current backoff, which then doubles, or gives up once
/// `MAX_RETRIES` retries have failed too.
#[derive(Debug, Clone, Copy, PartialEq, Eq, Structural)]
pub struct RetrySchedule {
    /// Attempts that have failed.
    pub attempt: u32,
    /// What to wait after the next failure.
    pub backoff_ms: u64,
}

/// 2 to the power `n`.
pub open spec fn pow2(n: nat) -> nat
    decreases n,
{
    if n == 0 { 1 } else { 2 * pow2((n - 1) as nat) }
}

impl RetrySchedule {
    /// At most `MAX_RETRIES + 1` attempts fail, and while retries are left the backoff is the
    /// initial one doubled once per failure.
    pub open spec fn wf(self) -> bool {
        &&& self.attempt <= MAX_RETRIES + 1
        &&& self.attempt <= MAX_RETRIES ==> self.backoff_ms == INITIAL_BACKOFF_MS * pow2(self.attempt as nat)
    }

    /// Whether the schedule has given up.
    pub open spec fn exhausted(self) -> bool {
        self.attempt > MAX_RETRIES
    }

    /// No attempt made yet.
    pub fn new() -> (s: Self)
        ensures
            s.wf(),
            s.attempt == 0,
            s.backoff_ms == INITIAL_BACKOFF_MS,
    {
        RetrySchedule { attempt: 0, backoff_ms: INITIAL_BACKOFF_MS }
    }

    /// After a failed attempt: `None` when it was attempt `MAX_RETRIES + 1`, the last one,
    /// else the milliseconds to wait before the next attempt, the backoff doubling for the
    /// one after.
    pub fn on_failure(&mut self) -> (wait: Option<u64>)
        requires
            old(self).wf(),
            !old(self).exhausted(),
        ensures
            final(self).wf(),
            final(self).attempt == old(self).attempt + 1,
            final(self).exhausted() ==> wait is None && final(self).backoff_ms == old(self).backoff_ms,
            !final(self).exhausted() ==> {
                &&& wait == Some(old(self).backoff_ms)
                &&& old(self).backoff_ms == INITIAL_BACKOFF_MS * pow2(old(self).attempt as nat)
                &&& final(self).backoff_ms == 2 * old(self).backoff_ms
            },
    {
        self.attempt = self.attempt + 1;
        if self.attempt > MAX_RETRIES {
            return None;
        }
        proof {
            reveal_with_fuel(pow2, 4);
        }
        let wait = self.backoff_ms;
        self.backoff_ms = self.backoff_ms * 2;
        Some(wait)
    }
}

} // verus!
