//! Proved laws of the write state machine: append and overwrite behaviour,
//! rollover, and the distinctness of dated file names.

use vstd::prelude::*;

use crate::log_level::LogLevel;
use crate::log_util::spec_dated_path;
use crate::log_util::spec_progress_channel;
use crate::log_util::spec_record_channel;
use crate::log_util::spec_roll;
use crate::log_util::spec_write_at;
use crate::log_util::ChannelView;
use crate::render::spec_date_compact;
use crate::render::spec_line;
use crate::render::spec_pad2;
use crate::render::spec_pad4;
use crate::render::spec_prefix_len;
use crate::render::Date;
use crate::render::Timestamp;

verus! {

use vstd::arithmetic::div_mod::lemma_div_denominator;
use vstd::arithmetic::div_mod::lemma_fundamental_div_mod;

/// Shape of the image `spec_write_at` produces: its length, and the three
/// regions — untouched prefix, the written bytes, untouched tail.
pub proof fn lemma_write_at_parts(data: Seq<u8>, pos: int, bytes: Seq<u8>)
    requires
        0 <= pos <= data.len(),
    ensures
        ({
            let r = spec_write_at(data, pos, bytes);
            &&& r.len() == if pos + bytes.len() >= data.len() {
                pos + bytes.len()
            } else {
                data.len() as int
            }
            &&& r.subrange(0, pos) == data.subrange(0, pos)
            &&& r.subrange(pos, pos + bytes.len()) == bytes
            &&& pos + bytes.len() < data.len() ==> r.subrange(pos + bytes.len(), r.len() as int)
                == data.subrange(pos + bytes.len(), data.len() as int)
        }),
{
    let r = spec_write_at(data, pos, bytes);
    assert(r.subrange(0, pos) =~= data.subrange(0, pos));
    assert(r.subrange(pos, pos + bytes.len()) =~= bytes);
    if pos + bytes.len() < data.len() {
        assert(r.subrange(pos + bytes.len(), r.len() as int) =~= data.subrange(
            pos + bytes.len(),
            data.len() as int,
        ));
    }
}

/// A record write within the open date appends exactly one newline-terminated
/// line to the dated file: the old content is kept, the file strictly grows,
/// and the cursor lands on the new end of file.
pub proof fn lemma_record_appends_line(
    f: ChannelView,
    level: LogLevel,
    msg: Seq<u8>,
    ts: Timestamp,
)
    requires
        ts.date == f.open_date,
    ensures
        ({
            let f2 = spec_record_channel(f, level, msg, ts);
            let line = spec_line(level, ts, msg) + seq![10u8];
            &&& f2.dated == f.dated + line
            &&& f2.dated.subrange(0, f.dated.len() as int) == f.dated
            &&& f2.dated.len() > f.dated.len()
            &&& f2.dated[f2.dated.len() - 1] == 10u8
            &&& f2.dated_cursor == f2.dated.len()
            &&& f2.latest == f.latest + line
            &&& f2.latest_cursor == f2.latest.len()
        }),
{
    let f2 = spec_record_channel(f, level, msg, ts);
    let line = spec_line(level, ts, msg) + seq![10u8];
    assert(spec_roll(f, ts.date) == f);
    assert(f2.dated.subrange(0, f.dated.len() as int) =~= f.dated);
    assert(f2.dated[f2.dated.len() - 1] == line[line.len() - 1]);
}

/// A non-terminal progress write leaves both cursors where they were, so a
/// second progress write starts at the same byte offset as the first; and
/// when the second message is no longer than the first, neither file grows.
pub proof fn lemma_progress_overwrite(
    f: ChannelView,
    level: LogLevel,
    msg1: Seq<u8>,
    msg2: Seq<u8>,
    ts1: Timestamp,
    ts2: Timestamp,
)
    requires
        f.wf(),
        ts1.date == f.open_date,
        ts2.date == f.open_date,
    ensures
        ({
            let f1 = spec_progress_channel(f, level, msg1, false, ts1);
            let f2 = spec_progress_channel(f1, level, msg2, false, ts2);
            &&& f1.latest_cursor == f.latest_cursor
            &&& f2.latest_cursor == f.latest_cursor
            &&& f1.dated_cursor == f.dated_cursor
            &&& f2.dated_cursor == f.dated_cursor
            &&& f2.latest.subrange(
                f.latest_cursor,
                f.latest_cursor + spec_line(level, ts2, msg2).len(),
            ) == spec_line(level, ts2, msg2)
            &&& msg2.len() <= msg1.len() ==> f2.latest.len() == f1.latest.len()
                && f2.dated.len() == f1.dated.len()
        }),
{
    let f1 = spec_progress_channel(f, level, msg1, false, ts1);
    let f2 = spec_progress_channel(f1, level, msg2, false, ts2);
    let l1 = spec_line(level, ts1, msg1);
    let l2 = spec_line(level, ts2, msg2);
    assert(spec_roll(f, ts1.date) == f);
    lemma_write_at_parts(f.latest, f.latest_cursor, l1);
    lemma_write_at_parts(f.dated, f.dated_cursor, l1);
    assert(f1.open_date == ts2.date);
    assert(spec_roll(f1, ts2.date) == f1);
    lemma_write_at_parts(f1.latest, f1.latest_cursor, l2);
    lemma_write_at_parts(f1.dated, f1.dated_cursor, l2);
    assert(l1.len() == spec_prefix_len(level) + msg1.len());
    assert(l2.len() == spec_prefix_len(level) + msg2.len());
}

/// A terminal progress write leaves the cursors exactly past its own line,
/// and a record write after it is appended strictly beyond that line: the
/// progress content is still intact in the final image and the record starts
/// at or after its end.
pub proof fn lemma_terminal_then_record(
    f: ChannelView,
    level1: LogLevel,
    msg1: Seq<u8>,
    ts1: Timestamp,
    level2: LogLevel,
    msg2: Seq<u8>,
    ts2: Timestamp,
)
    requires
        f.wf(),
        ts1.date == f.open_date,
        ts2.date == f.open_date,
    ensures
        ({
            let f1 = spec_progress_channel(f, level1, msg1, true, ts1);
            let f2 = spec_record_channel(f1, level2, msg2, ts2);
            let pline = spec_line(level1, ts1, msg1);
            let rline = spec_line(level2, ts2, msg2) + seq![10u8];
            let pstart = f.dated_cursor;
            &&& f1.dated_cursor == pstart + pline.len()
            &&& f1.dated_cursor <= f1.dated.len()
            &&& f2.dated == f1.dated + rline
            &&& f2.dated.subrange(pstart, pstart + pline.len()) == pline
            &&& f2.dated.subrange(f1.dated.len() as int, f2.dated.len() as int) == rline
            &&& pstart + pline.len() <= f1.dated.len()
        }),
{
    let f1 = spec_progress_channel(f, level1, msg1, true, ts1);
    let f2 = spec_record_channel(f1, level2, msg2, ts2);
    let pline = spec_line(level1, ts1, msg1);
    let rline = spec_line(level2, ts2, msg2) + seq![10u8];
    assert(spec_roll(f, ts1.date) == f);
    lemma_write_at_parts(f.dated, f.dated_cursor, pline);
    assert(f1.open_date == ts2.date);
    assert(spec_roll(f1, ts2.date) == f1);
    assert(f1.dated.subrange(f.dated_cursor, f.dated_cursor + pline.len()) == pline);
    assert(f2.dated.subrange(f.dated_cursor, f.dated_cursor + pline.len()) =~= f1.dated.subrange(
        f.dated_cursor,
        f.dated_cursor + pline.len(),
    ));
    assert(f2.dated.subrange(f1.dated.len() as int, f2.dated.len() as int) =~= rline);
}

/// A write stamped with a new date rotates the files first: the open date
/// becomes the new date, the latest image holds only the new line — nothing
/// written before the rollover survives in it — and the dated image is a
/// fresh one holding only the new line.
pub proof fn lemma_rollover_record(f: ChannelView, level: LogLevel, msg: Seq<u8>, ts: Timestamp)
    requires
        ts.date != f.open_date,
    ensures
        ({
            let f2 = spec_record_channel(f, level, msg, ts);
            let line = spec_line(level, ts, msg) + seq![10u8];
            &&& f2.open_date == ts.date
            &&& f2.latest == line
            &&& f2.dated == line
            &&& f2.latest_cursor == line.len()
            &&& f2.dated_cursor == line.len()
        }),
{
    let f2 = spec_record_channel(f, level, msg, ts);
    let line = spec_line(level, ts, msg) + seq![10u8];
    assert(f2.latest =~= line);
    assert(f2.dated =~= line);
}

proof fn lemma_pad2_injective(a: u32, b: u32)
    requires
        a <= 99,
        b <= 99,
        spec_pad2(a) == spec_pad2(b),
    ensures
        a == b,
{
    assert(spec_pad2(a)[0] == spec_pad2(b)[0]);
    assert(spec_pad2(a)[1] == spec_pad2(b)[1]);
    assert(a / 10 % 10 == b / 10 % 10);
    assert(a % 10 == b % 10);
    lemma_fundamental_div_mod(a as int, 10);
    lemma_fundamental_div_mod(b as int, 10);
    assert(a / 10 <= 9);
    assert(a / 10 % 10 == a / 10);
    assert(b / 10 % 10 == b / 10);
}

proof fn lemma_pad4_injective(a: u32, b: u32)
    requires
        a <= 9999,
        b <= 9999,
        spec_pad4(a) == spec_pad4(b),
    ensures
        a == b,
{
    assert(spec_pad4(a)[0] == spec_pad4(b)[0]);
    assert(spec_pad4(a)[1] == spec_pad4(b)[1]);
    assert(spec_pad4(a)[2] == spec_pad4(b)[2]);
    assert(spec_pad4(a)[3] == spec_pad4(b)[3]);
    assert(a / 1000 % 10 == b / 1000 % 10);
    assert(a / 100 % 10 == b / 100 % 10);
    assert(a / 10 % 10 == b / 10 % 10);
    assert(a % 10 == b % 10);
    lemma_reconstruct4(a);
    lemma_reconstruct4(b);
}

/// A four-digit number is determined by its four zero-padded digits.
proof fn lemma_reconstruct4(n: u32)
    requires
        n <= 9999,
    ensures
        n == 1000 * (n / 1000 % 10) + 100 * (n / 100 % 10) + 10 * (n / 10 % 10) + n % 10,
{
    let x = n as int;
    lemma_fundamental_div_mod(x, 10);
    lemma_fundamental_div_mod(x / 10, 10);
    lemma_fundamental_div_mod(x / 100, 10);
    lemma_div_denominator(x, 10, 10);
    lemma_div_denominator(x, 100, 10);
    assert(x / 1000 <= 9);
    assert(x / 1000 % 10 == x / 1000);
}

/// Distinct dates render to distinct `YYYYMMDD` strings.
pub proof fn lemma_date_compact_injective(d1: Date, d2: Date)
    requires
        d1.wf(),
        d2.wf(),
        spec_date_compact(d1) == spec_date_compact(d2),
    ensures
        d1.year == d2.year,
        d1.month == d2.month,
        d1.day == d2.day,
{
    let c1 = spec_date_compact(d1);
    let c2 = spec_date_compact(d2);
    assert(spec_pad4(d1.year) =~= c1.subrange(0, 4));
    assert(spec_pad2(d1.month) =~= c1.subrange(4, 6));
    assert(spec_pad2(d1.day) =~= c1.subrange(6, 8));
    assert(spec_pad4(d2.year) =~= c2.subrange(0, 4));
    assert(spec_pad2(d2.month) =~= c2.subrange(4, 6));
    assert(spec_pad2(d2.day) =~= c2.subrange(6, 8));
    lemma_pad4_injective(d1.year, d2.year);
    lemma_pad2_injective(d1.month, d2.month);
    lemma_pad2_injective(d1.day, d2.day);
}

/// Distinct dates give a channel distinct dated file paths: after a rollover
/// the dated file is a genuinely new file, not the old one reopened.
pub proof fn lemma_dated_path_injective(c: Seq<char>, d1: Date, d2: Date)
    requires
        d1.wf(),
        d2.wf(),
        d1 != d2,
    ensures
        spec_dated_path(c, d1) != spec_dated_path(c, d2),
{
    if spec_dated_path(c, d1) == spec_dated_path(c, d2) {
        let p1 = spec_dated_path(c, d1);
        let p2 = spec_dated_path(c, d2);
        let off = 4 + vstd::utf8::encode_utf8(c).len() as int + 1 + vstd::utf8::encode_utf8(
            c,
        ).len() as int + 1;
        assert(spec_date_compact(d1) =~= p1.subrange(off, off + 8));
        assert(spec_date_compact(d2) =~= p2.subrange(off, off + 8));
        lemma_date_compact_injective(d1, d2);
        assert(d1 =~= d2);
    }
}

/// A progress write stamped with a new date also rotates first: the fresh
/// images hold only the new line, written at offset zero of each file.
pub proof fn lemma_rollover_progress(
    f: ChannelView,
    level: LogLevel,
    msg: Seq<u8>,
    is_stop: bool,
    ts: Timestamp,
)
    requires
        ts.date != f.open_date,
    ensures
        ({
            let f2 = spec_progress_channel(f, level, msg, is_stop, ts);
            let line = spec_line(level, ts, msg);
            &&& f2.open_date == ts.date
            &&& f2.latest == line
            &&& f2.dated == line
            &&& f2.latest_cursor == if is_stop {
                line.len() as int
            } else {
                0
            }
        }),
{
    let f2 = spec_progress_channel(f, level, msg, is_stop, ts);
    let line = spec_line(level, ts, msg);
    assert(f2.latest =~= line);
    assert(f2.dated =~= line);
}

/// The concatenation of the newline-terminated lines of `msgs`, in order.
pub open spec fn spec_record_lines(level: LogLevel, msgs: Seq<Seq<u8>>, ts: Timestamp) -> Seq<u8>
    decreases msgs.len(),
{
    if msgs.len() == 0 {
        Seq::empty()
    } else {
        spec_line(level, ts, msgs[0]) + seq![10u8] + spec_record_lines(
            level,
            msgs.drop_first(),
            ts,
        )
    }
}

/// The channel state after record-writing each message of `msgs` in order.
pub open spec fn spec_records_channel(
    f: ChannelView,
    level: LogLevel,
    msgs: Seq<Seq<u8>>,
    ts: Timestamp,
) -> ChannelView
    decreases msgs.len(),
{
    if msgs.len() == 0 {
        f
    } else {
        spec_records_channel(spec_record_channel(f, level, msgs[0], ts), level, msgs.drop_first(), ts)
    }
}

/// Any number of record writes within the open date appends exactly the
/// writes' lines, complete and in order, to the dated file, and leaves the
/// cursor at the true end of the file.
pub proof fn lemma_records_sequential(
    f: ChannelView,
    level: LogLevel,
    msgs: Seq<Seq<u8>>,
    ts: Timestamp,
)
    requires
        ts.date == f.open_date,
    ensures
        ({
            let f2 = spec_records_channel(f, level, msgs, ts);
            &&& f2.dated == f.dated + spec_record_lines(level, msgs, ts)
            &&& f2.open_date == f.open_date
            &&& msgs.len() > 0 ==> f2.dated_cursor == f2.dated.len()
        }),
    decreases msgs.len(),
{
    let f2 = spec_records_channel(f, level, msgs, ts);
    if msgs.len() == 0 {
        assert(f.dated + spec_record_lines(level, msgs, ts) =~= f.dated);
    } else {
        let f1 = spec_record_channel(f, level, msgs[0], ts);
        lemma_record_appends_line(f, level, msgs[0], ts);
        lemma_records_sequential(f1, level, msgs.drop_first(), ts);
        assert(f2.dated =~= f.dated + spec_record_lines(level, msgs, ts));
        if msgs.len() == 1 {
            assert(f2 == f1);
        }
    }
}

} // verus!


