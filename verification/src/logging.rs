//! Throttling of progress updates: messages with the same prefix are not
//! emitted more often than a configured interval.

use vstd::prelude::*;

verus! {

/// Decides which progress updates are worth emitting.  Time is carried as a
/// caller-supplied millisecond clock value.
pub struct ProgressThrottle {
    pub last_msg: String,
    pub last_instant_ms: u64,
    pub min_interval_ms: u64,
}

impl ProgressThrottle {
    /// A throttle whose first update always passes: its last emission reads
    /// as one hour in the past.
    pub fn new(min_interval_ms: u64, now_ms: u64) -> (t: Self)
        ensures
            t.last_msg@ == Seq::<char>::empty(),
            t.min_interval_ms == min_interval_ms,
            t.last_instant_ms == if now_ms >= 3_600_000 {
                now_ms - 3_600_000
            } else {
                0
            },
    {
        let base: u64 = if now_ms >= 3_600_000 {
            now_ms - 3_600_000
        } else {
            0
        };
        ProgressThrottle { last_msg: String::new(), last_instant_ms: base, min_interval_ms }
    }

    /// A message passes when its prefix differs from the last one emitted, or
    /// enough time has gone by.
    pub open spec fn passes(self, prefix: Seq<char>, msg: Seq<char>, now_ms: u64) -> bool {
        !(prefix.is_prefix_of(self.last_msg@) && prefix.is_prefix_of(msg)) || now_ms as int
            >= self.last_instant_ms + self.min_interval_ms
    }

    /// Hand back the update to deliver, if this one passes the throttle; a
    /// delivered update becomes the new reference point.
    pub fn emit(&mut self, prefix: &str, msg: String, pct: u8, now_ms: u64) -> (r: Option<
        (String, u8),
    >)
        ensures
            old(self).passes(prefix@, msg@, now_ms) ==> {
                &&& r is Some
                &&& r->Some_0.0@ == msg@
                &&& r->Some_0.1 == pct
                &&& final(self).last_msg@ == msg@
                &&& final(self).last_instant_ms == now_ms
                &&& final(self).min_interval_ms == old(self).min_interval_ms
            },
            !old(self).passes(prefix@, msg@, now_ms) ==> r is None && *final(self) == *old(self),
    {
        let same_prefix = crate::text::starts_with_str(self.last_msg.as_str(), prefix)
            && crate::text::starts_with_str(msg.as_str(), prefix);
        let elapsed_ok = now_ms >= self.last_instant_ms && now_ms - self.last_instant_ms
            >= self.min_interval_ms;
        if !same_prefix || elapsed_ok {
            let out = msg.clone();
            self.last_msg = msg;
            self.last_instant_ms = now_ms;
            Some((out, pct))
        } else {
            None
        }
    }
}

} // verus!
