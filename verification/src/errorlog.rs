//! Bounded error history kept for the consumer's view: the last ten
//! entries, oldest evicted first.  The caller timestamps each entry as it
//! records it.

use vstd::prelude::*;

verus! {

/// How many error entries are kept.
pub const ERROR_LOG_CAP: usize = 10;

/// The last few error messages, oldest first.
pub struct ErrorLog {
    pub entries: Vec<String>,
}

impl ErrorLog {
    pub open spec fn wf(self) -> bool {
        self.entries@.len() <= ERROR_LOG_CAP
    }

    /// The log after recording one entry: appended at the back, the
    /// oldest entry evicted when the log is full.
    pub open spec fn spec_push(h: Seq<String>, entry: String) -> Seq<String> {
        if h.len() < ERROR_LOG_CAP {
            h.push(entry)
        } else {
            h.subrange(1, h.len() as int).push(entry)
        }
    }

    pub fn new() -> (r: Self)
        ensures
            r.wf(),
            r.entries@.len() == 0,
    {
        ErrorLog { entries: Vec::new() }
    }

    /// Records one entry, evicting the oldest when the log is full.
    pub fn push(&mut self, entry: String)
        requires
            old(self).wf(),
        ensures
            final(self).wf(),
            final(self).entries@ == Self::spec_push(old(self).entries@, entry),
    {
        self.entries.push(entry);
        if self.entries.len() > ERROR_LOG_CAP {
            self.entries.remove(0);
            proof {
                assert(self.entries@ =~= old(self).entries@.subrange(
                    1,
                    old(self).entries@.len() as int,
                ).push(entry));
            }
        }
    }
}

} // verus!
