//! The integer side of the machine's performance figures: processor time
//! between samples, and the drive of the installation. The figures themselves
//! are floating point and computed outside.

use vstd::prelude::*;

verus! {

/// Processor time counters, in 100 ns units.
#[derive(Clone, Copy, Debug)]
pub struct CpuTimes {
    pub idle: u64,
    pub kernel: u64,
    pub user: u64,
}

/// A Windows `FILETIME` as one 64-bit count.
pub fn filetime_value(high: u32, low: u32) -> (r: u64)
    ensures
        r == high as int * 0x1_0000_0000 + low as int,
{
    (high as u64) * 0x1_0000_0000 + (low as u64)
}

/// `a - b`, or 0 when `b` is larger.
pub open spec fn sat_sub(a: u64, b: u64) -> u64 {
    if a >= b {
        (a - b) as u64
    } else {
        0
    }
}

/// The processor time spent and spent busy between two samples: kernel and
/// user time together, less the idle time.
pub open spec fn cpu_deltas(prev: CpuTimes, now: CpuTimes) -> (int, int) {
    let total = sat_sub(now.kernel, prev.kernel) + sat_sub(now.user, prev.user);
    let idle = sat_sub(now.idle, prev.idle);
    (if total >= idle {
        total - idle
    } else {
        0
    }, total)
}

/// The previous sample of processor time, if any.
pub struct CpuSampler {
    previous: Option<CpuTimes>,
}

impl CpuSampler {
    /// The sample held, if any.
    pub closed spec fn previous(&self) -> Option<CpuTimes> {
        self.previous
    }

    /// A sampler with no sample yet.
    pub fn new() -> (r: Self)
        ensures
            r.previous() is None,
    {
        CpuSampler { previous: None }
    }

    /// Whether the processor time since the previous sample exceeds 64 bits,
    /// which `sample` does not accept.
    pub fn overflows(&self, now: CpuTimes) -> (r: bool)
        ensures
            r == (self.previous() matches Some(p) && sat_sub(now.kernel, p.kernel) + sat_sub(
                now.user,
                p.user,
            ) > u64::MAX),
    {
        match self.previous {
            None => false,
            Some(p) => {
                let k = if now.kernel >= p.kernel {
                    now.kernel - p.kernel
                } else {
                    0
                };
                let u = if now.user >= p.user {
                    now.user - p.user
                } else {
                    0
                };
                k > u64::MAX - u
            },
        }
    }

    /// Takes the sample `now`: gives the busy and total time since the
    /// previous sample, or nothing for the first sample or when no time
    /// passed.
    pub fn sample(&mut self, now: CpuTimes) -> (r: Option<(u64, u64)>)
        requires
            old(self).previous() matches Some(p) ==> sat_sub(now.kernel, p.kernel) + sat_sub(
                now.user,
                p.user,
            ) <= u64::MAX,
        ensures
            final(self).previous() == Some(now),
            match old(self).previous() {
                None => r is None,
                Some(p) => if cpu_deltas(p, now).1 == 0 {
                    r is None
                } else {
                    r matches Some(d) && d.0 == cpu_deltas(p, now).0 && d.1 == cpu_deltas(p, now).1
                },
            },
    {
        let previous = self.previous;
        self.previous = Some(now);
        match previous {
            None => None,
            Some(p) => {
                let k = if now.kernel >= p.kernel {
                    now.kernel - p.kernel
                } else {
                    0
                };
                let u = if now.user >= p.user {
                    now.user - p.user
                } else {
                    0
                };
                let total = k + u;
                if total == 0 {
                    return None;
                }
                let i = if now.idle >= p.idle {
                    now.idle - p.idle
                } else {
                    0
                };
                let busy = if total >= i {
                    total - i
                } else {
                    0
                };
                Some((busy, total))
            },
        }
    }
}

/// The root of the drive of the installation: its first letter and `:\`, or
/// `C:\` when the path does not start with a letter.
pub open spec fn drive_root_of(root: Seq<char>) -> Seq<char> {
    if root.len() > 0 && (('a' <= root[0] && root[0] <= 'z') || ('A' <= root[0] && root[0] <= 'Z')) {
        seq![root[0]] + ":\\"@
    } else {
        "C:\\"@
    }
}

/// The drive whose space is reported (see `drive_root_of`).
pub fn drive_root(root: &str) -> (r: String)
    ensures
        r@ == drive_root_of(root@),
{
    let v = crate::text::chars_of(root);
    if v.len() > 0 && (('a' <= v[0] && v[0] <= 'z') || ('A' <= v[0] && v[0] <= 'Z')) {
        let mut r = String::new();
        crate::text::push(&mut r, v[0]);
        r.append(":\\");
        r
    } else {
        String::from_str("C:\\")
    }
}

/// The refusal on systems without these figures.
pub fn unsupported_message() -> (r: &'static str)
    ensures
        r@ == "Performance metrics are only available on Windows"@,
{
    "Performance metrics are only available on Windows"
}

} // verus!
