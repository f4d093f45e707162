//! Per-processor counters: time spent computing and time spent waiting.
//!
//! The scheduler owns one profile per processor and adds the elapsed time of
//! every step to it. The counters are accumulated saturating, which keeps the
//! accounting monotonic; exactness is not required of profiling.

use vstd::prelude::*;

verus! {

/// The counters of one processor.
pub struct Profile {
    /// The id of the processor.
    pub pid: usize,
    /// The name of the processor.
    pub p_name: String,
    /// The time spent computing, in nanoseconds.
    pub cpu_time: u64,
    /// The time spent waiting (for work outside the port protocol), in
    /// nanoseconds.
    pub wait_time: u64,
}

impl Profile {
    /// A fresh profile for the named processor, with both counters at zero.
    pub fn create(pid: usize, p_name: String) -> (r: Profile)
        ensures
            r.pid == pid,
            r.p_name == p_name,
            r.cpu_time == 0,
            r.wait_time == 0,
    {
        Profile { pid, p_name, cpu_time: 0, wait_time: 0 }
    }

    /// Adds compute time; saturates rather than wraps, so the counter never
    /// moves backwards.
    pub fn add_cpu_time(&mut self, nanos: u64)
        ensures
            final(self).pid == old(self).pid,
            final(self).p_name == old(self).p_name,
            final(self).wait_time == old(self).wait_time,
            final(self).cpu_time == (if old(self).cpu_time + nanos <= u64::MAX {
                old(self).cpu_time + nanos
            } else {
                u64::MAX as int
            }),
    {
        if self.cpu_time <= u64::MAX - nanos {
            self.cpu_time = self.cpu_time + nanos;
        } else {
            self.cpu_time = u64::MAX;
        }
    }

    /// Adds wait time; saturates rather than wraps.
    pub fn add_wait_time(&mut self, nanos: u64)
        ensures
            final(self).pid == old(self).pid,
            final(self).p_name == old(self).p_name,
            final(self).cpu_time == old(self).cpu_time,
            final(self).wait_time == (if old(self).wait_time + nanos <= u64::MAX {
                old(self).wait_time + nanos
            } else {
                u64::MAX as int
            }),
    {
        if self.wait_time <= u64::MAX - nanos {
            self.wait_time = self.wait_time + nanos;
        } else {
            self.wait_time = u64::MAX;
        }
    }
}

/// One profiling snapshot row, as exposed to callers.
pub struct ProfileSnapshot {
    pub processor_id: usize,
    pub processor_name: String,
    pub cpu_time: u64,
    pub wait_time: u64,
}

/// The profiles of one query run, keyed by processor id.
pub struct SharedProcessorProfiles {
    pub profiles: Vec<Profile>,
}

impl SharedProcessorProfiles {
    /// An empty profile set.
    pub fn create() -> (r: SharedProcessorProfiles)
        ensures
            r.profiles@.len() == 0,
    {
        SharedProcessorProfiles { profiles: Vec::new() }
    }

    /// The number of profiles held.
    pub fn len(&self) -> (r: usize)
        ensures
            r == self.profiles@.len(),
    {
        self.profiles.len()
    }

    /// A snapshot of every processor's counters, in processor order.
    pub fn snapshot(&self) -> (r: Vec<ProfileSnapshot>)
        ensures
            r@.len() == self.profiles@.len(),
            forall|i: int|
                0 <= i < r@.len() ==> {
                    &&& (#[trigger] r@[i]).processor_id == self.profiles@[i].pid
                    &&& r@[i].processor_name@ == self.profiles@[i].p_name@
                    &&& r@[i].cpu_time == self.profiles@[i].cpu_time
                    &&& r@[i].wait_time == self.profiles@[i].wait_time
                },
    {
        let mut out: Vec<ProfileSnapshot> = Vec::new();
        let n = self.profiles.len();
        let mut i: usize = 0;
        while i < n
            invariant
                i <= n,
                n == self.profiles@.len(),
                out@.len() == i,
                forall|j: int|
                    0 <= j < i ==> {
                        &&& (#[trigger] out@[j]).processor_id == self.profiles@[j].pid
                        &&& out@[j].processor_name@ == self.profiles@[j].p_name@
                        &&& out@[j].cpu_time == self.profiles@[j].cpu_time
                        &&& out@[j].wait_time == self.profiles@[j].wait_time
                    },
            decreases n - i,
        {
            let p = &self.profiles[i];
            out.push(ProfileSnapshot {
                processor_id: p.pid,
                processor_name: p.p_name.clone(),
                cpu_time: p.cpu_time,
                wait_time: p.wait_time,
            });
            i = i + 1;
        }
        out
    }
}

/// Relies on `std::time::SystemTime::elapsed` (on the epoch constant): a
/// reading of the wall clock as nanoseconds since the epoch, zero when the
/// clock stands before it. Nothing is promised of the value; the profile
/// counters that consume it are approximate by design.
#[verifier::external_body]
pub(crate) fn clock_nanos() -> u128 {
    match std::time::UNIX_EPOCH.elapsed() {
        Ok(d) => d.as_nanos(),
        Err(_) => 0,
    }
}

/// The time elapsed between two clock readings: zero when the clock moved
/// backwards, saturated when it does not fit the counter.
pub fn elapsed_nanos(start: u128, end: u128) -> (r: u64)
    ensures
        end >= start && end - start <= u64::MAX ==> r == end - start,
        end < start ==> r == 0,
        end - start > u64::MAX ==> r == u64::MAX,
{
    if end < start {
        0
    } else if end - start > u64::MAX as u128 {
        u64::MAX
    } else {
        (end - start) as u64
    }
}

} // verus!
