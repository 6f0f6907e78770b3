//! Progress updates that background jobs report to the interface.

use vstd::prelude::*;
use crate::num::{dec_chars, fmt_dec};
use vstd::string::StringExecFns;

verus! {

/// One progress update: a message and a percentage.
#[derive(Debug, Clone)]
pub struct JobProgress {
    pub message: String,
    pub percent: u8,
}

/// The source of background jobs.
pub struct JobRunner;

impl JobRunner {
    /// The updates a dummy job emits, in order: one per percent from 0 to 100.
    pub fn dummy_job_updates() -> (v: Vec<JobProgress>)
        ensures
            v@.len() == 101,
            forall|m: int|
                0 <= m < 101 ==> (#[trigger] v@[m]).percent == m && v@[m].message@
                    == "Working... "@ + dec_chars(m as nat) + "%"@,
    {
        let mut v: Vec<JobProgress> = Vec::new();
        let mut i: u8 = 0;
        while i < 101
            invariant
                i <= 101,
                v@.len() == i,
                forall|m: int|
                    0 <= m < i ==> (#[trigger] v@[m]).percent == m && v@[m].message@
                        == "Working... "@ + dec_chars(m as nat) + "%"@,
            decreases 101 - i,
        {
            let mut message = String::new();
            message.append("Working... ");
            let d = fmt_dec(i as u64);
            message.append(d.as_str());
            message.append("%");
            v.push(JobProgress { message, percent: i });
            i = i + 1;
        }
        v
    }
}

} // verus!
