//! The sink side of output capture: the local-time stamp every record
//! carries, and the writer that turns a raw output buffer into tagged log
//! records through the decoding ladder.

use vstd::prelude::*;

use chrono::{Datelike, Timelike};

use crate::decode::{spec_try_decode, try_decode};
use crate::digits::{spec_decimal, u64_to_string};
use crate::logs::spec_service_log_prefix;
use crate::text::{concat2, is_space_char, spec_lines, split_lines};

verus! {

/// `n` in decimal, zero-padded to at least two digits.
pub open spec fn spec_pad2(n: nat) -> Seq<char> {
    if n < 10 {
        seq!['0'] + spec_decimal(n)
    } else {
        spec_decimal(n)
    }
}

/// `n` in decimal, zero-padded to at least four digits.
pub open spec fn spec_pad4(n: nat) -> Seq<char> {
    if n < 10 {
        seq!['0', '0', '0'] + spec_decimal(n)
    } else if n < 100 {
        seq!['0', '0'] + spec_decimal(n)
    } else if n < 1000 {
        seq!['0'] + spec_decimal(n)
    } else {
        spec_decimal(n)
    }
}

/// A year, signed, padded to four digits.
pub open spec fn spec_year4(y: int) -> Seq<char> {
    if y < 0 {
        seq!['-'] + spec_pad4((-y) as nat)
    } else {
        spec_pad4(y as nat)
    }
}

/// The record stamp format: `YYYY-MM-DD HH:MM:SS`.
pub open spec fn spec_timestamp(y: int, mo: nat, d: nat, h: nat, mi: nat, s: nat) -> Seq<char> {
    spec_year4(y) + "-"@ + spec_pad2(mo) + "-"@ + spec_pad2(d) + " "@ + spec_pad2(h) + ":"@
        + spec_pad2(mi) + ":"@ + spec_pad2(s)
}

fn pad2(n: u64) -> (r: String)
    ensures
        r@ == spec_pad2(n as nat),
{
    let digits = u64_to_string(n);
    if n < 10 {
        let r = concat2("0", digits.as_str());
        proof {
            reveal_strlit("0");
            assert(r@ =~= spec_pad2(n as nat));
        }
        r
    } else {
        digits
    }
}

fn pad4(n: u64) -> (r: String)
    ensures
        r@ == spec_pad4(n as nat),
{
    let digits = u64_to_string(n);
    if n < 10 {
        let r = concat2("000", digits.as_str());
        proof {
            reveal_strlit("000");
            assert(r@ =~= spec_pad4(n as nat));
        }
        r
    } else if n < 100 {
        let r = concat2("00", digits.as_str());
        proof {
            reveal_strlit("00");
            assert(r@ =~= spec_pad4(n as nat));
        }
        r
    } else if n < 1000 {
        let r = concat2("0", digits.as_str());
        proof {
            reveal_strlit("0");
            assert(r@ =~= spec_pad4(n as nat));
        }
        r
    } else {
        digits
    }
}

pub fn format_timestamp(y: i32, mo: u32, d: u32, h: u32, mi: u32, s: u32) -> (r: String)
    ensures
        r@ == spec_timestamp(y as int, mo as nat, d as nat, h as nat, mi as nat, s as nat),
{
    let year = if y < 0 {
        let pos = pad4((-(y as i64)) as u64);
        concat2("-", pos.as_str())
    } else {
        pad4(y as u64)
    };
    let mut out = year;
    out.append("-");
    out.append(pad2(mo as u64).as_str());
    out.append("-");
    out.append(pad2(d as u64).as_str());
    out.append(" ");
    out.append(pad2(h as u64).as_str());
    out.append(":");
    out.append(pad2(mi as u64).as_str());
    out.append(":");
    out.append(pad2(s as u64).as_str());
    proof {
        reveal_strlit("-");
        assert(year@ =~= spec_year4(y as int));
        assert(out@ =~= spec_timestamp(y as int, mo as nat, d as nat, h as nat, mi as nat, s as nat));
    }
    out
}

/// Relies on chrono's `Local::now` with its `Datelike` and `Timelike`
/// accessors: the month is 1 to 12, the day 1 to 31, and the time fields
/// stay within their clock ranges; nothing more can be promised of a clock.
/// chrono's `now` itself panics on a system clock set before the Unix epoch,
/// an environment condition no precondition can exclude.
#[verifier::external_body]
fn local_now_parts() -> (r: (i32, u32, u32, u32, u32, u32))
    ensures
        1 <= r.1 <= 12,
        1 <= r.2 <= 31,
        r.3 <= 23,
        r.4 <= 59,
        r.5 <= 59,
{
    let now = chrono::Local::now();
    (now.year(), now.month(), now.day(), now.hour(), now.minute(), now.second())
}

/// Stamps records with the local wall clock.
pub struct LocalTimer;

impl LocalTimer {
    /// The current local time in the record stamp format; the clock decides
    /// the value, the shape is always `YYYY-MM-DD HH:MM:SS`.
    pub fn format_time(&self) -> (r: String)
        ensures
            exists|y: int, mo: nat, d: nat, h: nat, mi: nat, s: nat|
                1 <= mo <= 12 && 1 <= d <= 31 && h <= 23 && mi <= 59 && s <= 59 && r@
                    == spec_timestamp(y, mo, d, h, mi, s),
    {
        let (y, mo, d, h, mi, s) = local_now_parts();
        let r = format_timestamp(y, mo, d, h, mi, s);
        proof {
            assert(1 <= mo as nat <= 12 && 1 <= d as nat <= 31 && h as nat <= 23 && mi as nat
                <= 59 && s as nat <= 59 && r@ == spec_timestamp(
                y as int,
                mo as nat,
                d as nat,
                h as nat,
                mi as nat,
                s as nat,
            ));
        }
        r
    }
}

pub open spec fn spec_hex_digit(d: nat) -> char
    recommends
        d < 16,
{
    if d == 0 {
        '0'
    } else if d == 1 {
        '1'
    } else if d == 2 {
        '2'
    } else if d == 3 {
        '3'
    } else if d == 4 {
        '4'
    } else if d == 5 {
        '5'
    } else if d == 6 {
        '6'
    } else if d == 7 {
        '7'
    } else if d == 8 {
        '8'
    } else if d == 9 {
        '9'
    } else if d == 10 {
        'a'
    } else if d == 11 {
        'b'
    } else if d == 12 {
        'c'
    } else if d == 13 {
        'd'
    } else if d == 14 {
        'e'
    } else {
        'f'
    }
}

pub open spec fn spec_hex_byte(b: u8) -> Seq<char> {
    seq!['0', 'x', spec_hex_digit((b / 16) as nat), spec_hex_digit((b % 16) as nat)]
}

/// `0x`-prefixed bytes joined by `", "`.
pub open spec fn spec_hex_list(bytes: Seq<u8>) -> Seq<char>
    decreases bytes.len(),
{
    if bytes.len() == 0 {
        seq![]
    } else if bytes.len() == 1 {
        spec_hex_byte(bytes[0])
    } else {
        spec_hex_list(bytes.drop_last()) + ", "@ + spec_hex_byte(bytes.last())
    }
}

fn hex_digit_char(d: u8) -> (r: char)
    requires
        d < 16,
    ensures
        r == spec_hex_digit(d as nat),
{
    if d == 0 {
        '0'
    } else if d == 1 {
        '1'
    } else if d == 2 {
        '2'
    } else if d == 3 {
        '3'
    } else if d == 4 {
        '4'
    } else if d == 5 {
        '5'
    } else if d == 6 {
        '6'
    } else if d == 7 {
        '7'
    } else if d == 8 {
        '8'
    } else if d == 9 {
        '9'
    } else if d == 10 {
        'a'
    } else if d == 11 {
        'b'
    } else if d == 12 {
        'c'
    } else if d == 13 {
        'd'
    } else if d == 14 {
        'e'
    } else {
        'f'
    }
}

fn hex_list(buf: &[u8]) -> (r: String)
    ensures
        r@ == spec_hex_list(buf@),
{
    let n = buf.len();
    let mut out = String::new();
    let mut i: usize = 0;
    proof {
        assert(out@ =~= spec_hex_list(buf@.take(0)));
    }
    while i < n
        invariant
            n == buf@.len(),
            0 <= i <= n,
            out@ == spec_hex_list(buf@.take(i as int)),
        decreases n - i,
    {
        let b = buf[i];
        if i > 0 {
            out.append(", ");
        }
        let mut cell = String::new();
        cell.append("0x");
        proof {
            reveal_strlit("0x");
            reveal_strlit(", ");
        }
        let hi = hex_digit_char(b / 16);
        let lo = hex_digit_char(b % 16);
        let hs = char_str(hi);
        out.append(cell.as_str());
        out.append(hs.as_str());
        let ls = char_str(lo);
        out.append(ls.as_str());
        proof {
            assert(buf@.take(i + 1).drop_last() =~= buf@.take(i as int));
            assert(buf@.take(i + 1).last() == buf@[i as int]);
            assert(out@ =~= spec_hex_list(buf@.take(i + 1)));
        }
        i += 1;
    }
    proof {
        assert(buf@.take(n as int) =~= buf@);
    }
    out
}

/// The one-character string of a hexadecimal digit character.
fn char_str(c: char) -> (r: String)
    requires
        exists|d: nat| d < 16 && c == spec_hex_digit(d),
    ensures
        r@ =~= seq![c],
{
    if c == '0' {
        proof {
            reveal_strlit("0");
        }
        "0".to_owned()
    } else if c == '1' {
        proof {
            reveal_strlit("1");
        }
        "1".to_owned()
    } else if c == '2' {
        proof {
            reveal_strlit("2");
        }
        "2".to_owned()
    } else if c == '3' {
        proof {
            reveal_strlit("3");
        }
        "3".to_owned()
    } else if c == '4' {
        proof {
            reveal_strlit("4");
        }
        "4".to_owned()
    } else if c == '5' {
        proof {
            reveal_strlit("5");
        }
        "5".to_owned()
    } else if c == '6' {
        proof {
            reveal_strlit("6");
        }
        "6".to_owned()
    } else if c == '7' {
        proof {
            reveal_strlit("7");
        }
        "7".to_owned()
    } else if c == '8' {
        proof {
            reveal_strlit("8");
        }
        "8".to_owned()
    } else if c == '9' {
        proof {
            reveal_strlit("9");
        }
        "9".to_owned()
    } else if c == 'a' {
        proof {
            reveal_strlit("a");
        }
        "a".to_owned()
    } else if c == 'b' {
        proof {
            reveal_strlit("b");
        }
        "b".to_owned()
    } else if c == 'c' {
        proof {
            reveal_strlit("c");
        }
        "c".to_owned()
    } else if c == 'd' {
        proof {
            reveal_strlit("d");
        }
        "d".to_owned()
    } else if c == 'e' {
        proof {
            reveal_strlit("e");
        }
        "e".to_owned()
    } else {
        proof {
            reveal_strlit("f");
            assert(c == 'f') by {
                let d = choose|d: nat| d < 16 && c == spec_hex_digit(d);
            }
        }
        "f".to_owned()
    }
}

/// The level word a record line carries.
pub open spec fn spec_level_word(level: LogLevel) -> Seq<char> {
    match level {
        LogLevel::Info => "INFO"@,
        LogLevel::Error => "ERROR"@,
    }
}

/// One on-disk record line: `YYYY-MM-DD HH:MM:SS  LEVEL  MESSAGE`.
pub open spec fn spec_format_record(
    stamp: Seq<char>,
    level: LogLevel,
    message: Seq<char>,
) -> Seq<char> {
    stamp + "  "@ + spec_level_word(level) + "  "@ + message
}

/// A wrapped-process record reads back out of the log: formatting a marked
/// message into a record line and extracting it through the `logs` verb's
/// reader returns exactly the message body, trimmed.
pub proof fn lemma_log_line_round_trip(stamp: Seq<char>, level: LogLevel, body: Seq<char>)
    requires
        stamp.len() == 19,
    ensures
        crate::logs::spec_extract_message(
            spec_format_record(stamp, level, spec_service_log_prefix() + body),
        ) == Some(crate::text::trim_spec(body)),
{
    reveal_strlit("INFO");
    reveal_strlit("ERROR");
    reveal_strlit("  ");
    reveal_strlit("|SVC-LOG| ");
    assert("INFO"@.len() == 4);
    assert("ERROR"@.len() == 5);
    assert("  "@.len() == 2);
    assert("|SVC-LOG| "@.len() == 10);
    let word = spec_level_word(level);
    let marker = spec_service_log_prefix();
    let line = spec_format_record(stamp, level, marker + body);
    assert(line.len() == 19 + 2 + word.len() + 2 + 10 + body.len());
    let after = line.skip(21);
    assert(after =~= word + "  "@ + marker + body);
    assert(forall|j: int| 0 <= j < word.len() ==> after[j] != ' ') by {
        match level {
            LogLevel::Info => {
                assert(forall|j: int| 0 <= j < word.len() ==> after[j] == "INFO"@[j]);
            },
            LogLevel::Error => {
                assert(forall|j: int| 0 <= j < word.len() ==> after[j] == "ERROR"@[j]);
            },
        }
    }
    assert(after[word.len() as int] == ' ');
    crate::text::lemma_first_index_of_at(after, ' ', word.len() as int);
    let msg_start = 21 + word.len() + 1;
    assert(msg_start < line.len());
    let message = line.skip(msg_start as int);
    assert(message =~= seq![' '] + marker + body);
    assert(is_space_char(message[0]));
    assert(message[1] == '|');
    crate::text::lemma_trim_start_at(message, 1);
    let t = message.skip(1);
    assert(t =~= marker + body);
    assert(t.take(marker.len() as int) =~= marker);
    assert(crate::text::starts_with(t, marker));
    assert(t.skip(marker.len() as int) =~= body);
}

/// The level a rendered record carries.
#[derive(Clone, Copy, PartialEq, Eq, Structural, Debug)]
pub enum LogLevel {
    Info,
    Error,
}

/// One timestamped-to-be line handed to the log sink.
pub struct LogRecord {
    pub level: LogLevel,
    pub message: String,
}

pub ghost struct LogRecordView {
    pub level: LogLevel,
    pub message: Seq<char>,
}

impl View for LogRecord {
    type V = LogRecordView;

    open spec fn view(&self) -> LogRecordView {
        LogRecordView { level: self.level, message: self.message@ }
    }
}

impl DeepView for LogRecord {
    type V = LogRecordView;

    open spec fn deep_view(&self) -> LogRecordView {
        self@
    }
}

/// The record emitted when every rung of the decoding ladder refused the
/// buffer: a single error line with a hex dump of the bytes.
pub open spec fn spec_unreadable_record(bytes: Seq<u8>) -> LogRecordView {
    LogRecordView {
        level: LogLevel::Error,
        message: spec_service_log_prefix() + "<unreadable data: ["@ + spec_hex_list(bytes)
            + "]>"@,
    }
}

/// The non-empty lines of decoded text, each tagged with the
/// wrapped-process marker, at INFO.
pub open spec fn spec_tagged_lines(lines: Seq<Seq<char>>) -> Seq<LogRecordView>
    decreases lines.len(),
{
    if lines.len() == 0 {
        seq![]
    } else {
        let head = spec_tagged_lines(lines.drop_last());
        if lines.last().len() > 0 {
            head.push(
                LogRecordView {
                    level: LogLevel::Info,
                    message: spec_service_log_prefix() + lines.last(),
                },
            )
        } else {
            head
        }
    }
}

/// Everything one write of raw child output turns into.
pub open spec fn spec_render(bytes: Seq<u8>) -> Seq<LogRecordView> {
    match spec_try_decode(bytes) {
        Some(text) => spec_tagged_lines(spec_lines(text)),
        None => seq![spec_unreadable_record(bytes)],
    }
}

/// Turns raw child output into tagged records: the buffer is decoded by the
/// ladder and split into lines, every non-empty line becomes an INFO record
/// carrying the wrapped-process marker; a buffer no rung can decode becomes
/// one ERROR record holding a hex dump.
pub struct LogWriter;

impl LogWriter {
    /// One write of child output. Returns the rendered records and, as a
    /// sink does, the number of bytes consumed — always the whole buffer.
    pub fn write(&mut self, buf: &[u8]) -> (r: (Vec<LogRecord>, usize))
        requires
            buf@.len() <= 0x1000_0000,
        ensures
            r.0.deep_view() == spec_render(buf@),
            r.1 == buf@.len(),
    {
        let mut records: Vec<LogRecord> = Vec::new();
        match try_decode(buf) {
            Some(text) => {
                let lines = split_lines(text.as_str());
                let n = lines.len();
                let ghost lv = lines.deep_view();
                proof {
                    assert(forall|j: int|
                        0 <= j < lv.len() ==> #[trigger] lv[j] == lines@[j].deep_view());
                    assert(records.deep_view() =~= spec_tagged_lines(lv.take(0)));
                }
                let mut i: usize = 0;
                while i < n
                    invariant
                        n == lines@.len(),
                        lv == lines.deep_view(),
                        lv.len() == n,
                        forall|j: int| 0 <= j < lv.len() ==> #[trigger] lv[j] == lines@[j].deep_view(),
                        0 <= i <= n,
                        records.deep_view() == spec_tagged_lines(lv.take(i as int)),
                    decreases n - i,
                {
                    proof {
                        assert(lv.take(i + 1).drop_last() =~= lv.take(i as int));
                        assert(lv.take(i + 1).last() == lv[i as int]);
                    }
                    let line = &lines[i];
                    if line.as_str().unicode_len() > 0 {
                        let tagged = concat2(crate::logs::service_log_prefix(), line.as_str());
                        let ghost old_dv = records.deep_view();
                        records.push(LogRecord { level: LogLevel::Info, message: tagged });
                        proof {
                            assert(records.deep_view() =~= old_dv.push(
                                LogRecordView {
                                    level: LogLevel::Info,
                                    message: spec_service_log_prefix() + lv[i as int],
                                },
                            ));
                        }
                    }
                    i += 1;
                }
                proof {
                    assert(lv.take(n as int) =~= lv);
                }
            },
            None => {
                let dump = hex_list(buf);
                let mut message = crate::logs::service_log_prefix().to_owned();
                message.append("<unreadable data: [");
                message.append(dump.as_str());
                message.append("]>");
                records.push(LogRecord { level: LogLevel::Error, message });
                proof {
                    assert(records.deep_view() =~= seq![spec_unreadable_record(buf@)]);
                }
            },
        }
        (records, buf.len())
    }

    /// Nothing is buffered here; flushing always succeeds.
    pub fn flush(&mut self) -> (r: Result<(), ()>)
        ensures
            r is Ok,
    {
        Ok(())
    }
}

} // verus!
