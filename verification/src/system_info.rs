//! Host load figures, as far as integers carry them.
//!
//! The processor's load over an interval is the share of busy time in the
//! time that passed. The tracker keeps the last totals and hands out both
//! differences; dividing them is left to the caller.

use vstd::prelude::*;
use crate::errors::ChipsError;

verus! {

/// A 64-bit time from its high and low 32 bits.
pub open spec fn filetime(high: u32, low: u32) -> u64 {
    ((high as u64) << 32) | (low as u64)
}

/// Joins the two halves of a 64-bit time.
pub fn filetime_as_u64(high: u32, low: u32) -> (time: u64)
    ensures
        time == filetime(high, low),
{
    ((high as u64) << 32) | (low as u64)
}

/// The halves of a 64-bit time do not overlap: the time is the high half
/// times 2 to the 32 plus the low half.
pub proof fn lemma_filetime_value(high: u32, low: u32)
    ensures
        filetime(high, low) == high * 0x1_0000_0000 + low,
{
    assert(((high as u64) << 32) | (low as u64) == high * 0x1_0000_0000 + low) by (bit_vector);
}

/// A share as two counts: what is in use and what there is. Their quotient
/// is the load.
#[derive(Debug, Clone, Copy, PartialEq, Eq, Structural)]
pub struct Usage {
    pub used: u64,
    pub total: u64,
}

/// The totals of the last sample: time passed and time spent busy.
pub ghost struct Totals {
    pub time: u64,
    pub busy: u64,
}

/// Tracks processor times from one sample to the next.
#[derive(Debug)]
pub struct SystemInfo {
    last_total_time: u64,
    last_total_exec_time: u64,
}

impl View for SystemInfo {
    type V = Totals;

    closed spec fn view(&self) -> Totals {
        Totals { time: self.last_total_time, busy: self.last_total_exec_time }
    }
}

/// Whether a sample of idle, kernel and user time can follow the given
/// totals: kernel time includes idle time, the sums fit 64 bits, and neither
/// total runs backwards.
pub open spec fn follows(last: Totals, idle: u64, kernel: u64, user: u64) -> bool {
    &&& kernel + user <= u64::MAX
    &&& idle <= kernel + user
    &&& last.time <= kernel + user
    &&& last.busy <= kernel + user - idle
}

impl SystemInfo {
    /// A tracker that has seen no sample yet.
    pub fn new() -> (result: Result<Self, ChipsError>)
        ensures
            result is Ok,
            result->Ok_0@ == (Totals { time: 0, busy: 0 }),
    {
        Ok(SystemInfo { last_total_time: 0, last_total_exec_time: 0 })
    }

    /// Takes a sample of the processor's idle, kernel and user time and
    /// returns what was added since the last sample. A sample that cannot
    /// follow the last one is turned down and changes nothing.
    pub fn get_cpu_usage(&mut self, idle: u64, kernel: u64, user: u64) -> (usage: Option<Usage>)
        ensures
            follows(old(self)@, idle, kernel, user) ==> usage == Some(
                Usage {
                    used: (kernel + user - idle - old(self)@.busy) as u64,
                    total: (kernel + user - old(self)@.time) as u64,
                },
            ) && final(self)@ == (Totals {
                time: (kernel + user) as u64,
                busy: (kernel + user - idle) as u64,
            }),
            !follows(old(self)@, idle, kernel, user) ==> usage is None && final(self)@ == old(
                self,
            )@,
    {
        if kernel > u64::MAX - user {
            return None;
        }
        let total_time = kernel + user;
        if idle > total_time || self.last_total_time > total_time {
            return None;
        }
        let total_exec_time = total_time - idle;
        if self.last_total_exec_time > total_exec_time {
            return None;
        }
        let usage = Usage {
            used: total_exec_time - self.last_total_exec_time,
            total: total_time - self.last_total_time,
        };
        self.last_total_time = total_time;
        self.last_total_exec_time = total_exec_time;
        Some(usage)
    }

    /// The memory in use, given the total and the available memory; `None`
    /// where more is available than there is.
    pub fn get_memory_usage(&self, total: u64, available: u64) -> (usage: Option<Usage>)
        ensures
            available <= total ==> usage == Some(
                Usage { used: (total - available) as u64, total },
            ),
            available > total ==> usage is None,
    {
        if available > total {
            None
        } else {
            Some(Usage { used: total - available, total })
        }
    }

    /// The graphics processor's load from the driver's reading, a
    /// percentage; no load where there is no driver to read from.
    pub fn get_gpu_usage(&self, reading: Option<u32>) -> (usage: Usage)
        ensures
            usage == (Usage {
                used: match reading {
                    Some(percent) => percent as u64,
                    None => 0,
                },
                total: 100,
            }),
    {
        match reading {
            Some(percent) => Usage { used: percent as u64, total: 100 },
            None => Usage { used: 0, total: 100 },
        }
    }
}

} // verus!
