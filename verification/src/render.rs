//! Calendar values and the fixed-width rendering of timestamps and log lines.
//!
//! A rendered line is `[YYYY-MM-DD HH:MM:SS LEVEL] message`. Every component
//! of the timestamp is zero-padded, so the prefix before the message has the
//! same byte width for every well-formed timestamp of a given level; the
//! progress-overwrite cursor arithmetic depends on exactly that.

use vstd::prelude::*;

use crate::log_level::LogLevel;

verus! {

/// A calendar date, no time component.
#[derive(Clone, Copy, Debug, PartialEq, Eq, Structural)]
pub struct Date {
    pub year: u32,
    pub month: u32,
    pub day: u32,
}

impl Date {
    /// A date the renderer can print in fixed width.
    pub open spec fn wf(self) -> bool {
        &&& self.year <= 9999
        &&& 1 <= self.month <= 12
        &&& 1 <= self.day <= 31
    }
}

/// A wall-clock instant, split into plain values.
#[derive(Clone, Copy, Debug, PartialEq, Eq, Structural)]
pub struct Timestamp {
    pub date: Date,
    pub hour: u32,
    pub minute: u32,
    pub second: u32,
}

impl Timestamp {
    pub open spec fn wf(self) -> bool {
        &&& self.date.wf()
        &&& self.hour <= 23
        &&& self.minute <= 59
        &&& self.second <= 59
    }
}

/// The ASCII byte of a single decimal digit.
pub open spec fn spec_digit(d: u32) -> u8 {
    (48 + d) as u8
}

/// Two-digit zero-padded decimal rendering.
pub open spec fn spec_pad2(n: u32) -> Seq<u8> {
    seq![spec_digit(n / 10 % 10), spec_digit(n % 10)]
}

/// Four-digit zero-padded decimal rendering.
pub open spec fn spec_pad4(n: u32) -> Seq<u8> {
    seq![
        spec_digit(n / 1000 % 10),
        spec_digit(n / 100 % 10),
        spec_digit(n / 10 % 10),
        spec_digit(n % 10),
    ]
}

/// `YYYYMMDD`, as used in the dated file's name.
pub open spec fn spec_date_compact(d: Date) -> Seq<u8> {
    spec_pad4(d.year) + spec_pad2(d.month) + spec_pad2(d.day)
}

/// `YYYY-MM-DD HH:MM:SS`: always 19 bytes.
pub open spec fn spec_timestamp_bytes(ts: Timestamp) -> Seq<u8> {
    spec_pad4(ts.date.year) + seq![45u8] + spec_pad2(ts.date.month) + seq![45u8] + spec_pad2(
        ts.date.day,
    ) + seq![32u8] + spec_pad2(ts.hour) + seq![58u8] + spec_pad2(ts.minute) + seq![58u8]
        + spec_pad2(ts.second)
}

/// The ASCII bytes of a level's label, as written to the files.
pub open spec fn spec_label_bytes(level: LogLevel) -> Seq<u8> {
    match level {
        LogLevel::Info => seq![73u8, 78u8, 70u8, 79u8],  // INFO
        LogLevel::Debug => seq![68u8, 69u8, 66u8, 85u8, 71u8],  // DEBUG
        LogLevel::Error => seq![69u8, 82u8, 82u8, 79u8, 82u8],  // ERROR
        LogLevel::Warn => seq![87u8, 65u8, 82u8, 78u8, 73u8, 78u8, 71u8],  // WARNING
    }
}

/// `[<timestamp> <LEVEL>] `: everything of a rendered line before the message.
pub open spec fn spec_prefix(level: LogLevel, ts: Timestamp) -> Seq<u8> {
    seq![91u8] + spec_timestamp_bytes(ts) + seq![32u8] + spec_label_bytes(level) + seq![93u8, 32u8]
}

/// A full rendered line: prefix followed by the message bytes. Progress
/// writes store exactly this; record writes add a trailing newline.
pub open spec fn spec_line(level: LogLevel, ts: Timestamp, msg: Seq<u8>) -> Seq<u8> {
    spec_prefix(level, ts) + msg
}

/// The byte width of the prefix: 23 framing and timestamp bytes plus the
/// label. It does not depend on the timestamp.
pub open spec fn spec_prefix_len(level: LogLevel) -> int {
    23 + spec_label_bytes(level).len() as int
}

/// The rendered prefix has the same byte width for every timestamp: all of
/// its components are zero-padded, which is what makes the progress-rewind
/// arithmetic byte-exact.
pub broadcast proof fn lemma_prefix_len(level: LogLevel, ts: Timestamp)
    ensures
        (#[trigger] spec_prefix(level, ts)).len() == spec_prefix_len(level),
{
}

/// The prefix width, computed the way the renderer renders it: a sample
/// timestamp is exactly as wide as any other, so the value is exact for
/// every line of this level.
pub fn calculate_log_prefix_len(log_level: &LogLevel) -> (r: usize)
    ensures
        r == spec_prefix_len(*log_level),
{
    23 + match log_level {
        LogLevel::Info => 4,
        LogLevel::Debug => 5,
        LogLevel::Error => 5,
        LogLevel::Warn => 7,
    }
}

/// Append the two-digit rendering of `n % 100`.
fn push_pad2(v: &mut Vec<u8>, n: u32)
    ensures
        final(v)@ == old(v)@ + spec_pad2(n),
{
    v.push((48 + n / 10 % 10) as u8);
    v.push((48 + n % 10) as u8);
    assert(v@ =~= old(v)@ + spec_pad2(n));
}

/// Append the four-digit rendering of `n % 10000`.
fn push_pad4(v: &mut Vec<u8>, n: u32)
    ensures
        final(v)@ == old(v)@ + spec_pad4(n),
{
    v.push((48 + n / 1000 % 10) as u8);
    v.push((48 + n / 100 % 10) as u8);
    v.push((48 + n / 10 % 10) as u8);
    v.push((48 + n % 10) as u8);
    assert(v@ =~= old(v)@ + spec_pad4(n));
}

/// Render `YYYY-MM-DD HH:MM:SS` for `ts`.
pub fn timestamp_bytes(ts: &Timestamp) -> (r: Vec<u8>)
    ensures
        r@ == spec_timestamp_bytes(*ts),
        r@.len() == 19,
{
    let mut v: Vec<u8> = Vec::new();
    push_pad4(&mut v, ts.date.year);
    v.push(45);
    push_pad2(&mut v, ts.date.month);
    v.push(45);
    push_pad2(&mut v, ts.date.day);
    v.push(32);
    push_pad2(&mut v, ts.hour);
    v.push(58);
    push_pad2(&mut v, ts.minute);
    v.push(58);
    push_pad2(&mut v, ts.second);
    assert(v@ =~= spec_timestamp_bytes(*ts));
    v
}

/// Render `YYYYMMDD` for `d`.
pub fn date_compact_bytes(d: &Date) -> (r: Vec<u8>)
    ensures
        r@ == spec_date_compact(*d),
        r@.len() == 8,
{
    let mut v: Vec<u8> = Vec::new();
    push_pad4(&mut v, d.year);
    push_pad2(&mut v, d.month);
    push_pad2(&mut v, d.day);
    assert(v@ =~= spec_date_compact(*d));
    v
}

/// Append the label bytes of `level`.
fn push_label(v: &mut Vec<u8>, level: LogLevel)
    ensures
        final(v)@ == old(v)@ + spec_label_bytes(level),
{
    match level {
        LogLevel::Info => {
            v.push(73);
            v.push(78);
            v.push(70);
            v.push(79);
        },
        LogLevel::Debug => {
            v.push(68);
            v.push(69);
            v.push(66);
            v.push(85);
            v.push(71);
        },
        LogLevel::Error => {
            v.push(69);
            v.push(82);
            v.push(82);
            v.push(79);
            v.push(82);
        },
        LogLevel::Warn => {
            v.push(87);
            v.push(65);
            v.push(82);
            v.push(78);
            v.push(73);
            v.push(78);
            v.push(71);
        },
    }
    assert(v@ =~= old(v)@ + spec_label_bytes(level));
}

/// Render the full line `[<timestamp> <LEVEL>] <msg>` as bytes.
pub fn render_line(level: LogLevel, ts: &Timestamp, msg: &[u8]) -> (r: Vec<u8>)
    requires
        msg@.len() + 32 <= usize::MAX,
    ensures
        r@ == spec_line(level, *ts, msg@),
        r@.len() == spec_prefix_len(level) + msg@.len(),
{
    let mut v: Vec<u8> = Vec::new();
    v.push(91);
    let t = timestamp_bytes(ts);
    let mut i: usize = 0;
    while i < t.len()
        invariant
            i <= t@.len(),
            v@ == seq![91u8] + t@.subrange(0, i as int),
        decreases t@.len() - i,
    {
        let b = t[i];
        v.push(b);
        assert(v@ =~= seq![91u8] + t@.subrange(0, i + 1 as int));
        i += 1;
    }
    assert(t@.subrange(0, t@.len() as int) =~= t@);
    v.push(32);
    push_label(&mut v, level);
    v.push(93);
    v.push(32);
    let mut j: usize = 0;
    let ghost pre = v@;
    assert(pre =~= spec_prefix(level, *ts));
    while j < msg.len()
        invariant
            j <= msg@.len(),
            v@ == pre + msg@.subrange(0, j as int),
            pre.len() + msg@.len() <= usize::MAX,
        decreases msg@.len() - j,
    {
        let b = msg[j];
        v.push(b);
        assert(v@ =~= pre + msg@.subrange(0, j + 1 as int));
        j += 1;
    }
    assert(msg@.subrange(0, msg@.len() as int) =~= msg@);
    assert(v@ == spec_line(level, *ts, msg@));
    v
}

} // verus!
