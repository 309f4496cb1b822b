//! The per-channel log writer: two file images, two byte cursors, and the
//! open date, together with the rollover and write state machine.
//!
//! The writer keeps an in-memory image of each file it manages. Every write
//! returns a [`WriteEffect`] describing exactly what an unverified shell must
//! do to keep the real console and files in step: which bytes to write, at
//! which offset, and whether the files must first be rotated.

use vstd::prelude::*;

use crate::clock;
use crate::log_level::spec_enabled;
use crate::log_level::LevelFilter;
use crate::log_level::LogLevel;
use crate::render::calculate_log_prefix_len;
use crate::render::render_line;
use crate::render::spec_date_compact;
use crate::render::spec_line;
use crate::render::spec_prefix_len;
use crate::render::spec_timestamp_bytes;
use crate::render::timestamp_bytes;
use crate::render::Date;
use crate::render::Timestamp;

verus! {

use vstd::string::StringSliceAdditionalSpecFns;
use vstd::utf8::encode_utf8;

/// The byte image of a file after writing `bytes` at offset `pos`: bytes
/// before `pos` are kept, the written range is replaced or appended, and any
/// bytes past the written range are kept.
pub open spec fn spec_write_at(data: Seq<u8>, pos: int, bytes: Seq<u8>) -> Seq<u8>
    recommends
        0 <= pos <= data.len(),
{
    data.subrange(0, pos) + bytes + if pos + bytes.len() < data.len() {
        data.subrange(pos + bytes.len(), data.len() as int)
    } else {
        Seq::empty()
    }
}

/// Write `bytes` into `data` at offset `pos`, overwriting in place and
/// extending the image where the write runs past its end.
pub fn write_at(data: &mut Vec<u8>, pos: usize, bytes: &[u8])
    requires
        pos <= old(data)@.len(),
        pos + bytes@.len() <= usize::MAX,
    ensures
        final(data)@ == spec_write_at(old(data)@, pos as int, bytes@),
{
    let mut i: usize = 0;
    while i < bytes.len()
        invariant
            i <= bytes@.len(),
            pos <= old(data)@.len(),
            pos + bytes@.len() <= usize::MAX,
            data@.len() == if pos + i <= old(data)@.len() {
                old(data)@.len() as int
            } else {
                pos + i
            },
            forall|j: int|
                0 <= j < data@.len() ==> data@[j] == if pos <= j < pos + i {
                    bytes@[j - pos]
                } else {
                    old(data)@[j]
                },
        decreases bytes@.len() - i,
    {
        let b = bytes[i];
        if pos + i < data.len() {
            data[pos + i] = b;
        } else {
            data.push(b);
        }
        i += 1;
    }
    assert(data@ =~= spec_write_at(old(data)@, pos as int, bytes@));
}

/// The state a channel's two files are in: the byte image of each file, the
/// progress cursor of each file, and the date the files belong to.
pub struct ChannelFiles {
    /// Image of the truncate-on-rollover file that reflects only today.
    pub latest: Vec<u8>,
    /// Offset at which the next progress write to `latest` begins.
    pub latest_cursor: usize,
    /// Image of the dated archive file, one per calendar day.
    pub dated: Vec<u8>,
    /// Offset at which the next progress write to `dated` begins.
    pub dated_cursor: usize,
    /// The date both files correspond to.
    pub open_date: Date,
}

/// Mathematical state of a channel's files.
#[verifier::ext_equal]
pub struct ChannelView {
    pub latest: Seq<u8>,
    pub latest_cursor: int,
    pub dated: Seq<u8>,
    pub dated_cursor: int,
    pub open_date: Date,
}

impl View for ChannelFiles {
    type V = ChannelView;

    open spec fn view(&self) -> ChannelView {
        ChannelView {
            latest: self.latest@,
            latest_cursor: self.latest_cursor as int,
            dated: self.dated@,
            dated_cursor: self.dated_cursor as int,
            open_date: self.open_date,
        }
    }
}

impl ChannelView {
    /// Cursors never point past the end of their file image.
    pub open spec fn wf(self) -> bool {
        &&& 0 <= self.latest_cursor <= self.latest.len()
        &&& 0 <= self.dated_cursor <= self.dated.len()
        &&& self.open_date.wf()
    }
}

/// A log writer for one named channel.
pub struct LogUtil {
    /// The channel name; file paths are derived from it.
    pub class_name: String,
    /// The minimum enabled level: lines above it are dropped entirely.
    pub max_level: LevelFilter,
    /// The channel's files, or `None` for a console-only writer constructed
    /// with an empty channel name.
    pub files: Option<ChannelFiles>,
}

/// Mathematical state of a writer.
#[verifier::ext_equal]
pub struct LogUtilView {
    pub class_name: Seq<char>,
    pub max_level: LevelFilter,
    pub files: Option<ChannelView>,
}

impl View for LogUtil {
    type V = LogUtilView;

    open spec fn view(&self) -> LogUtilView {
        LogUtilView {
            class_name: self.class_name@,
            max_level: self.max_level,
            files: match self.files {
                Some(f) => Some(f@),
                None => None,
            },
        }
    }
}

impl LogUtilView {
    pub open spec fn wf(self) -> bool {
        match self.files {
            Some(f) => f.wf(),
            None => true,
        }
    }

    /// Both file images have room for `n` more bytes.
    pub open spec fn can_write(self, n: int) -> bool {
        match self.files {
            Some(f) => f.latest.len() + n <= usize::MAX && f.dated.len() + n <= usize::MAX,
            None => true,
        }
    }
}

/// What the files look like once a write stamped `d` begins: unchanged while
/// `d` is the open date, and rotated — latest truncated, a fresh dated file,
/// cursors rewound — as soon as it is not.
pub open spec fn spec_roll(f: ChannelView, d: Date) -> ChannelView {
    if d == f.open_date {
        f
    } else {
        ChannelView {
            latest: Seq::empty(),
            latest_cursor: 0,
            dated: Seq::empty(),
            dated_cursor: 0,
            open_date: d,
        }
    }
}

/// A progress write: after rollover, the rendered line (no newline) is
/// written at each cursor; a terminal write advances the cursors past the
/// line, a non-terminal write leaves them at its start so the next progress
/// write overwrites it.
pub open spec fn spec_progress_channel(
    f: ChannelView,
    level: LogLevel,
    msg: Seq<u8>,
    is_stop: bool,
    ts: Timestamp,
) -> ChannelView {
    let f1 = spec_roll(f, ts.date);
    let line = spec_line(level, ts, msg);
    ChannelView {
        latest: spec_write_at(f1.latest, f1.latest_cursor, line),
        latest_cursor: if is_stop {
            f1.latest_cursor + line.len()
        } else {
            f1.latest_cursor
        },
        dated: spec_write_at(f1.dated, f1.dated_cursor, line),
        dated_cursor: if is_stop {
            f1.dated_cursor + line.len()
        } else {
            f1.dated_cursor
        },
        open_date: ts.date,
    }
}

/// A record write: after rollover, the rendered line plus a newline is
/// appended to each file, and both cursors move to the new end.
pub open spec fn spec_record_channel(
    f: ChannelView,
    level: LogLevel,
    msg: Seq<u8>,
    ts: Timestamp,
) -> ChannelView {
    let f1 = spec_roll(f, ts.date);
    let line = spec_line(level, ts, msg) + seq![10u8];
    ChannelView {
        latest: f1.latest + line,
        latest_cursor: f1.latest.len() + line.len() as int,
        dated: f1.dated + line,
        dated_cursor: f1.dated.len() + line.len() as int,
        open_date: ts.date,
    }
}

pub open spec fn spec_progress_state(
    s: LogUtilView,
    level: LogLevel,
    msg: Seq<u8>,
    is_stop: bool,
    ts: Timestamp,
) -> LogUtilView {
    match s.files {
        None => s,
        Some(f) => LogUtilView {
            files: Some(spec_progress_channel(f, level, msg, is_stop, ts)),
            ..s
        },
    }
}

pub open spec fn spec_record_state(
    s: LogUtilView,
    level: LogLevel,
    msg: Seq<u8>,
    ts: Timestamp,
) -> LogUtilView {
    match s.files {
        None => s,
        Some(f) => LogUtilView { files: Some(spec_record_channel(f, level, msg, ts)), ..s },
    }
}

/// The file half of a write's effect: what the shell must do to the two real
/// files to keep them equal to the images.
pub struct FileWrite {
    /// Whether the real files must be rotated first: the latest file
    /// reopened with truncation, the dated file of the new date created.
    pub rollover: bool,
    /// The exact bytes to write to both files.
    pub line: Vec<u8>,
    /// The offset at which `line` goes into the latest file.
    pub latest_pos: usize,
    /// The offset at which `line` goes into the dated file.
    pub dated_pos: usize,
}

#[verifier::ext_equal]
pub struct FileWriteView {
    pub rollover: bool,
    pub line: Seq<u8>,
    pub latest_pos: int,
    pub dated_pos: int,
}

impl View for FileWrite {
    type V = FileWriteView;

    open spec fn view(&self) -> FileWriteView {
        FileWriteView {
            rollover: self.rollover,
            line: self.line@,
            latest_pos: self.latest_pos as int,
            dated_pos: self.dated_pos as int,
        }
    }
}

/// Everything a write asks the unverified shell to do. The console line is
/// rendered from `timestamp` and the caller's own level and message; the
/// file half is absent for a console-only writer.
pub struct WriteEffect {
    /// The rendered `YYYY-MM-DD HH:MM:SS` the write was stamped with.
    pub timestamp: Vec<u8>,
    /// The file writes to mirror, or `None` when the writer has no files.
    pub file: Option<FileWrite>,
}

#[verifier::ext_equal]
pub struct WriteEffectView {
    pub timestamp: Seq<u8>,
    pub file: Option<FileWriteView>,
}

impl View for WriteEffect {
    type V = WriteEffectView;

    open spec fn view(&self) -> WriteEffectView {
        WriteEffectView {
            timestamp: self.timestamp@,
            file: match self.file {
                Some(f) => Some(f@),
                None => None,
            },
        }
    }
}

pub open spec fn spec_opt_effect(r: Option<WriteEffect>) -> Option<WriteEffectView> {
    match r {
        Some(e) => Some(e@),
        None => None,
    }
}

/// The effect a write stamped `ts` announces, given the writer state it
/// started from. `record` selects the record form (trailing newline,
/// positions at the end of each image) over the progress form (no newline,
/// positions at the cursors).
pub open spec fn spec_effect(
    s: LogUtilView,
    level: LogLevel,
    msg: Seq<u8>,
    ts: Timestamp,
    record: bool,
) -> WriteEffectView {
    WriteEffectView {
        timestamp: spec_timestamp_bytes(ts),
        file: match s.files {
            None => None,
            Some(f) => {
                let f1 = spec_roll(f, ts.date);
                Some(
                    FileWriteView {
                        rollover: ts.date != f.open_date,
                        line: if record {
                            spec_line(level, ts, msg) + seq![10u8]
                        } else {
                            spec_line(level, ts, msg)
                        },
                        latest_pos: if record {
                            f1.latest.len() as int
                        } else {
                            f1.latest_cursor
                        },
                        dated_pos: if record {
                            f1.dated.len() as int
                        } else {
                            f1.dated_cursor
                        },
                    },
                )
            },
        },
    }
}

/// Full contract of a progress write stamped `ts`: below the filter nothing
/// happens at all; otherwise the state steps by `spec_progress_channel` and
/// the returned effect is exactly `spec_effect`.
pub open spec fn progress_post(
    pre: LogUtilView,
    post: LogUtilView,
    r: Option<WriteEffectView>,
    level: LogLevel,
    msg: Seq<u8>,
    is_stop: bool,
    ts: Timestamp,
) -> bool {
    if spec_enabled(pre.max_level, level) {
        &&& post == spec_progress_state(pre, level, msg, is_stop, ts)
        &&& r == Some(spec_effect(pre, level, msg, ts, false))
    } else {
        &&& post == pre
        &&& r is None
    }
}

/// Full contract of a record write stamped `ts`.
pub open spec fn record_post(
    pre: LogUtilView,
    post: LogUtilView,
    r: Option<WriteEffectView>,
    level: LogLevel,
    msg: Seq<u8>,
    ts: Timestamp,
) -> bool {
    if spec_enabled(pre.max_level, level) {
        &&& post == spec_record_state(pre, level, msg, ts)
        &&& r == Some(spec_effect(pre, level, msg, ts, true))
    } else {
        &&& post == pre
        &&& r is None
    }
}

impl LogUtil {
    pub open spec fn wf(self) -> bool {
        self@.wf()
    }

    /// Construct a writer for `class_name`. An empty name yields a
    /// console-only writer without files. Otherwise the latest file starts
    /// truncated and the dated file starts as whatever the shell found on
    /// disk for today, with both cursors at offset zero.
    pub fn new(
        class_name: String,
        max_level: LevelFilter,
        now: Timestamp,
        dated_existing: Vec<u8>,
    ) -> (r: LogUtil)
        requires
            now.wf(),
        ensures
            r.wf(),
            r@.class_name == class_name@,
            r@.max_level == max_level,
            class_name@.len() == 0 ==> r@.files is None,
            class_name@.len() > 0 ==> r@.files == Some(
                ChannelView {
                    latest: Seq::<u8>::empty(),
                    latest_cursor: 0,
                    dated: dated_existing@,
                    dated_cursor: 0,
                    open_date: now.date,
                },
            ),
    {
        let files = if class_name.as_str().is_empty() {
            None
        } else {
            Some(
                ChannelFiles {
                    latest: Vec::new(),
                    latest_cursor: 0,
                    dated: dated_existing,
                    dated_cursor: 0,
                    open_date: now.date,
                },
            )
        };
        let r = LogUtil { class_name, max_level, files };
        proof {
            if r@.files is Some {
                assert(r@.files->Some_0.latest =~= Seq::<u8>::empty());
            }
        }
        r
    }

    /// Reassign the channel name; the open files are untouched until the
    /// next rollover derives paths from the new name.
    pub fn set_class_name(&mut self, class_name: String)
        requires
            old(self).wf(),
        ensures
            final(self).wf(),
            final(self)@ == (LogUtilView { class_name: class_name@, ..old(self)@ }),
    {
        self.class_name = class_name;
    }

    /// A progress write stamped with the given instant: a transient status
    /// line that the next non-terminal progress write overwrites in place.
    pub fn output_progress_msg_at(
        &mut self,
        log_level: LogLevel,
        msg: &str,
        is_process_stop: bool,
        now: Timestamp,
    ) -> (r: Option<WriteEffect>)
        requires
            old(self).wf(),
            now.wf(),
            msg.spec_bytes().len() + 32 <= usize::MAX,
            old(self)@.can_write(spec_prefix_len(log_level) + msg.spec_bytes().len()),
        ensures
            final(self).wf(),
            progress_post(
                old(self)@,
                final(self)@,
                spec_opt_effect(r),
                log_level,
                msg.spec_bytes(),
                is_process_stop,
                now,
            ),
    {
        if !(log_level.rank() <= self.max_level.rank()) {
            return None;
        }
        let ts = timestamp_bytes(&now);
        match self.files.take() {
            None => {
                let r = Some(WriteEffect { timestamp: ts, file: None });
                proof {
                    assert(final(self)@ =~= spec_progress_state(
                        old(self)@,
                        log_level,
                        msg.spec_bytes(),
                        is_process_stop,
                        now,
                    ));
                    assert(spec_opt_effect(r) == Some(
                        spec_effect(old(self)@, log_level, msg.spec_bytes(), now, false),
                    ));
                }
                r
            },
            Some(mut f) => {
                let ghost f0 = f@;
                let mut rolled = false;
                if !(now.date == f.open_date) {
                    f.latest = Vec::new();
                    f.latest_cursor = 0;
                    f.dated = Vec::new();
                    f.dated_cursor = 0;
                    f.open_date = now.date;
                    rolled = true;
                }
                proof {
                    assert(f@ =~= spec_roll(f0, now.date));
                }
                let line = render_line(log_level, &now, msg.as_bytes());
                let latest_pos = f.latest_cursor;
                let dated_pos = f.dated_cursor;
                write_at(&mut f.latest, latest_pos, line.as_slice());
                write_at(&mut f.dated, dated_pos, line.as_slice());
                if is_process_stop {
                    f.latest_cursor = latest_pos + line.len();
                    f.dated_cursor = dated_pos + line.len();
                } else {
                    let rewind = msg.len() + calculate_log_prefix_len(&log_level);
                    f.latest_cursor = latest_pos + line.len() - rewind;
                    f.dated_cursor = dated_pos + line.len() - rewind;
                }
                let ghost fv = f@;
                self.files = Some(f);
                let r = Some(
                    WriteEffect {
                        timestamp: ts,
                        file: Some(FileWrite { rollover: rolled, line, latest_pos, dated_pos }),
                    },
                );
                proof {
                    assert(fv =~= spec_progress_channel(
                        f0,
                        log_level,
                        msg.spec_bytes(),
                        is_process_stop,
                        now,
                    ));
                    assert(final(self)@ =~= spec_progress_state(
                        old(self)@,
                        log_level,
                        msg.spec_bytes(),
                        is_process_stop,
                        now,
                    ));
                    assert(spec_opt_effect(r)->Some_0 =~= spec_effect(
                        old(self)@,
                        log_level,
                        msg.spec_bytes(),
                        now,
                        false,
                    ));
                }
                r
            },
        }
    }

    /// A record write stamped with the given instant: a permanent line,
    /// appended with a trailing newline, never overwriting anything.
    pub fn write_record_at(&mut self, log_level: LogLevel, msg: &str, now: Timestamp) -> (r:
        Option<WriteEffect>)
        requires
            old(self).wf(),
            now.wf(),
            msg.spec_bytes().len() + 32 <= usize::MAX,
            old(self)@.can_write(spec_prefix_len(log_level) + msg.spec_bytes().len() + 1),
        ensures
            final(self).wf(),
            record_post(
                old(self)@,
                final(self)@,
                spec_opt_effect(r),
                log_level,
                msg.spec_bytes(),
                now,
            ),
    {
        if !(log_level.rank() <= self.max_level.rank()) {
            return None;
        }
        let ts = timestamp_bytes(&now);
        match self.files.take() {
            None => {
                let r = Some(WriteEffect { timestamp: ts, file: None });
                proof {
                    assert(final(self)@ =~= spec_record_state(
                        old(self)@,
                        log_level,
                        msg.spec_bytes(),
                        now,
                    ));
                }
                r
            },
            Some(mut f) => {
                let ghost f0 = f@;
                let mut rolled = false;
                if !(now.date == f.open_date) {
                    f.latest = Vec::new();
                    f.latest_cursor = 0;
                    f.dated = Vec::new();
                    f.dated_cursor = 0;
                    f.open_date = now.date;
                    rolled = true;
                }
                proof {
                    assert(f@ =~= spec_roll(f0, now.date));
                }
                let mut line = render_line(log_level, &now, msg.as_bytes());
                line.push(10);
                let latest_pos = f.latest.len();
                let dated_pos = f.dated.len();
                write_at(&mut f.latest, latest_pos, line.as_slice());
                write_at(&mut f.dated, dated_pos, line.as_slice());
                f.latest_cursor = f.latest.len();
                f.dated_cursor = f.dated.len();
                let ghost fv = f@;
                self.files = Some(f);
                let r = Some(
                    WriteEffect {
                        timestamp: ts,
                        file: Some(FileWrite { rollover: rolled, line, latest_pos, dated_pos }),
                    },
                );
                proof {
                    let msgb = msg.spec_bytes();
                    let rl = spec_line(log_level, now, msgb) + seq![10u8];
                    let f1 = spec_roll(f0, now.date);
                    assert(fv.latest =~= f1.latest + rl);
                    assert(fv.dated =~= f1.dated + rl);
                    assert(fv =~= spec_record_channel(f0, log_level, msgb, now));
                    assert(final(self)@ =~= spec_record_state(old(self)@, log_level, msgb, now));
                    assert(spec_opt_effect(r)->Some_0 =~= spec_effect(
                        old(self)@,
                        log_level,
                        msgb,
                        now,
                        true,
                    ));
                }
                r
            },
        }
    }

    /// A progress write stamped with the wall clock. The clock decides the
    /// timestamp, so the contract holds for some well-formed instant rather
    /// than a particular one.
    pub fn output_progress_msg(&mut self, log_level: LogLevel, msg: &str, is_process_stop: bool)
        -> (r: Option<WriteEffect>)
        requires
            old(self).wf(),
            msg.spec_bytes().len() + 32 <= usize::MAX,
            old(self)@.can_write(msg.spec_bytes().len() + 31 as int),
        ensures
            final(self).wf(),
            exists|ts: Timestamp|
                ts.wf() && #[trigger] progress_post(
                    old(self)@,
                    final(self)@,
                    spec_opt_effect(r),
                    log_level,
                    msg.spec_bytes(),
                    is_process_stop,
                    ts,
                ),
    {
        let now = clock_timestamp();
        assert(spec_prefix_len(log_level) <= 30);
        let r = self.output_progress_msg_at(log_level, msg, is_process_stop, now);
        r
    }

    /// A record write stamped with the wall clock; as with the progress
    /// form, the contract holds for some well-formed instant.
    pub fn write_record(&mut self, log_level: LogLevel, msg: &str) -> (r: Option<WriteEffect>)
        requires
            old(self).wf(),
            msg.spec_bytes().len() + 32 <= usize::MAX,
            old(self)@.can_write(msg.spec_bytes().len() + 31 as int),
        ensures
            final(self).wf(),
            exists|ts: Timestamp|
                ts.wf() && #[trigger] record_post(
                    old(self)@,
                    final(self)@,
                    spec_opt_effect(r),
                    log_level,
                    msg.spec_bytes(),
                    ts,
                ),
    {
        let now = clock_timestamp();
        assert(spec_prefix_len(log_level) <= 30);
        let r = self.write_record_at(log_level, msg, now);
        r
    }
}

/// Read the wall clock as a well-formed timestamp; a year the renderer could
/// not print in four digits is pinned to the nearest printable one.
fn clock_timestamp() -> (r: Timestamp)
    ensures
        r.wf(),
{
    let (y, mo, d, h, mi, s) = clock::now_parts();
    let year: u32 = if y < 1 {
        1
    } else if y > 9999 {
        9999
    } else {
        y as u32
    };
    Timestamp { date: Date { year, month: mo, day: d }, hour: h, minute: mi, second: s }
}

/// The directory holding a channel's files: `log/<class_name>`.
pub open spec fn spec_log_dir(c: Seq<char>) -> Seq<u8> {
    seq![108u8, 111u8, 103u8, 47u8] + encode_utf8(c)
}

/// `log/<class_name>/<class_name>.log`.
pub open spec fn spec_latest_path(c: Seq<char>) -> Seq<u8> {
    spec_log_dir(c) + seq![47u8] + encode_utf8(c) + seq![46u8, 108u8, 111u8, 103u8]
}

/// `log/<class_name>/<class_name>_<YYYYMMDD>.log`.
pub open spec fn spec_dated_path(c: Seq<char>, d: Date) -> Seq<u8> {
    spec_log_dir(c) + seq![47u8] + encode_utf8(c) + seq![95u8] + spec_date_compact(d) + seq![
        46u8,
        108u8,
        111u8,
        103u8,
    ]
}

/// Append a byte slice to a byte vector.
fn push_slice(v: &mut Vec<u8>, s: &[u8])
    requires
        old(v)@.len() + s@.len() <= usize::MAX,
    ensures
        final(v)@ == old(v)@ + s@,
{
    let mut i: usize = 0;
    while i < s.len()
        invariant
            i <= s@.len(),
            old(v)@.len() + s@.len() <= usize::MAX,
            v@ == old(v)@ + s@.subrange(0, i as int),
        decreases s@.len() - i,
    {
        let b = s[i];
        v.push(b);
        assert(v@ =~= old(v)@ + s@.subrange(0, i + 1 as int));
        i += 1;
    }
    assert(s@.subrange(0, s@.len() as int) =~= s@);
}

/// The bytes of the channel directory path.
pub fn log_dir_bytes(class_name: &str) -> (r: Vec<u8>)
    requires
        class_name.spec_bytes().len() + 64 <= usize::MAX,
    ensures
        r@ == spec_log_dir(class_name@),
{
    let mut v: Vec<u8> = Vec::new();
    v.push(108);
    v.push(111);
    v.push(103);
    v.push(47);
    push_slice(&mut v, class_name.as_bytes());
    assert(v@ =~= spec_log_dir(class_name@));
    v
}

/// The bytes of the latest file's path.
pub fn latest_path_bytes(class_name: &str) -> (r: Vec<u8>)
    requires
        class_name.spec_bytes().len() * 2 + 64 <= usize::MAX,
    ensures
        r@ == spec_latest_path(class_name@),
{
    let mut v = log_dir_bytes(class_name);
    v.push(47);
    push_slice(&mut v, class_name.as_bytes());
    v.push(46);
    v.push(108);
    v.push(111);
    v.push(103);
    assert(v@ =~= spec_latest_path(class_name@));
    v
}

/// The bytes of the dated file's path for date `d`.
pub fn dated_path_bytes(class_name: &str, d: &Date) -> (r: Vec<u8>)
    requires
        class_name.spec_bytes().len() * 2 + 64 <= usize::MAX,
    ensures
        r@ == spec_dated_path(class_name@, *d),
{
    let mut v = log_dir_bytes(class_name);
    v.push(47);
    push_slice(&mut v, class_name.as_bytes());
    v.push(95);
    let compact = crate::render::date_compact_bytes(d);
    push_slice(&mut v, compact.as_slice());
    v.push(46);
    v.push(108);
    v.push(111);
    v.push(103);
    assert(v@ =~= spec_dated_path(class_name@, *d));
    v
}

} // verus!
