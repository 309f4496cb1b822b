//! Log levels, the global level filter, and the mapping from configuration
//! strings to the filter.

use vstd::prelude::*;

verus! {

use vstd::string::StringSliceAdditionalSpecFns;

/// Severity of a single log line. `rank` gives the ordinal used for
/// filtering: `Error` is the least verbose, `Debug` the most.
#[derive(Clone, Copy, Debug, PartialEq, Eq, Structural)]
pub enum LogLevel {
    Debug,
    Warn,
    Info,
    Error,
}

impl LogLevel {
    /// Ordinal severity: Error < Info < Warn < Debug.
    pub open spec fn spec_rank(self) -> u32 {
        match self {
            LogLevel::Error => 1,
            LogLevel::Info => 2,
            LogLevel::Warn => 3,
            LogLevel::Debug => 4,
        }
    }

    pub fn rank(&self) -> (r: u32)
        ensures
            r == self.spec_rank(),
    {
        match self {
            LogLevel::Error => 1,
            LogLevel::Info => 2,
            LogLevel::Warn => 3,
            LogLevel::Debug => 4,
        }
    }

    /// The textual label used in rendered lines.
    pub open spec fn spec_label(self) -> Seq<char> {
        match self {
            LogLevel::Info => "INFO"@,
            LogLevel::Debug => "DEBUG"@,
            LogLevel::Error => "ERROR"@,
            LogLevel::Warn => "WARNING"@,
        }
    }

    pub fn label(&self) -> (r: &'static str)
        ensures
            r@ == self.spec_label(),
    {
        match self {
            LogLevel::Info => "INFO",
            LogLevel::Debug => "DEBUG",
            LogLevel::Error => "ERROR",
            LogLevel::Warn => "WARNING",
        }
    }
}

/// The minimum enabled level for the whole process: a level is written only
/// when its rank is at most the filter's rank.
#[derive(Clone, Copy, Debug, PartialEq, Eq, Structural)]
pub enum LevelFilter {
    Off,
    Error,
    Warn,
    Info,
    Debug,
    Trace,
}

impl LevelFilter {
    pub open spec fn spec_rank(self) -> u32 {
        match self {
            LevelFilter::Off => 0,
            LevelFilter::Error => 1,
            LevelFilter::Warn => 2,
            LevelFilter::Info => 3,
            LevelFilter::Debug => 4,
            LevelFilter::Trace => 5,
        }
    }

    pub fn rank(&self) -> (r: u32)
        ensures
            r == self.spec_rank(),
    {
        match self {
            LevelFilter::Off => 0,
            LevelFilter::Error => 1,
            LevelFilter::Warn => 2,
            LevelFilter::Info => 3,
            LevelFilter::Debug => 4,
            LevelFilter::Trace => 5,
        }
    }
}

/// Whether a line of level `level` passes the filter `max`.
pub open spec fn spec_enabled(max: LevelFilter, level: LogLevel) -> bool {
    level.spec_rank() <= max.spec_rank()
}

/// The documented mapping from a configuration string to the minimum enabled
/// level; every unrecognized value (including the empty string) yields `Info`.
pub open spec fn spec_max_level_from_str(s: Seq<char>) -> LevelFilter {
    if s == "info"@ {
        LevelFilter::Info
    } else if s == "debug"@ {
        LevelFilter::Debug
    } else if s == "error"@ {
        LevelFilter::Error
    } else if s == "warn"@ {
        LevelFilter::Warn
    } else if s == "off"@ {
        LevelFilter::Off
    } else if s == "trace"@ {
        LevelFilter::Trace
    } else {
        LevelFilter::Info
    }
}

/// Derive the minimum enabled level from a configuration string, exactly as
/// `spec_max_level_from_str` states it.
pub fn max_level_from_str(s: &str) -> (r: LevelFilter)
    ensures
        r == spec_max_level_from_str(s@),
{
    if str_eq(s, "info") {
        LevelFilter::Info
    } else if str_eq(s, "debug") {
        LevelFilter::Debug
    } else if str_eq(s, "error") {
        LevelFilter::Error
    } else if str_eq(s, "warn") {
        LevelFilter::Warn
    } else if str_eq(s, "off") {
        LevelFilter::Off
    } else if str_eq(s, "trace") {
        LevelFilter::Trace
    } else {
        LevelFilter::Info
    }
}

/// String equality decided by comparing the UTF-8 bytes; equal byte sequences
/// decode to equal character sequences.
pub fn str_eq(a: &str, b: &str) -> (r: bool)
    ensures
        r == (a@ == b@),
{
    let ab = a.as_bytes();
    let bb = b.as_bytes();
    if ab.len() != bb.len() {
        proof {
            assert(a.spec_bytes().len() != b.spec_bytes().len());
            assert(a@ != b@);
        }
        return false;
    }
    let n = ab.len();
    let mut i: usize = 0;
    while i < n
        invariant
            n == ab@.len(),
            n == bb@.len(),
            ab@ == a.spec_bytes(),
            bb@ == b.spec_bytes(),
            i <= n,
            forall|j: int| 0 <= j < i ==> ab@[j] == bb@[j],
        decreases n - i,
    {
        if ab[i] != bb[i] {
            proof {
                assert(a.spec_bytes() != b.spec_bytes());
                assert(a@ != b@);
            }
            return false;
        }
        i += 1;
    }
    proof {
        assert(a.spec_bytes() =~= b.spec_bytes());
        vstd::utf8::encode_utf8_decode_utf8(a@);
        vstd::utf8::encode_utf8_decode_utf8(b@);
        assert(a@ == b@);
    }
    true
}

} // verus!
