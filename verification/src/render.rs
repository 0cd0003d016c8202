//! What the reporter shows of a record: its path, its size in binary units
//! and its time of modification in local time.

use vstd::prelude::*;
use vstd::string::StringExecFns;
use crate::record::{DiscoveredFile, Timestamp};
use crate::text::{decimal, decimal_four, four_digits, push_decimal, push_four, push_two, two_digits};

verus! {

/// The text that `humansize` gives for a byte count under its `BINARY`
/// options, such as `1.50 KiB` for 1536.
pub uninterp spec fn binary_size_text(size: u64) -> Seq<char>;

/// The text that std's lossy UTF-8 decoding gives for a byte string.
pub uninterp spec fn utf8_lossy_text(bytes: Seq<u8>) -> Seq<char>;

/// Calls `humansize::format_size` with the options `humansize::BINARY`. The
/// text depends on the byte count alone; it is named, not described.
#[verifier::external_body]
fn size_text(size: u64) -> (text: String)
    ensures
        text@ == binary_size_text(size),
{
    humansize::format_size(size, humansize::BINARY)
}

/// Calls `String::from_utf8_lossy` of std and owns the result. The text
/// depends on the bytes alone; it is named, not described.
#[verifier::external_body]
fn path_text(bytes: &[u8]) -> (text: String)
    ensures
        text@ == utf8_lossy_text(bytes@),
{
    String::from_utf8_lossy(bytes).into_owned()
}

/// A time of day on a day of the calendar, as a clock in local time shows
/// it.
#[derive(Clone, Copy, Debug, PartialEq, Eq, Structural)]
pub struct LocalTime {
    pub year: i32,
    pub month: u32,
    pub day: u32,
    pub hour: u32,
    pub minute: u32,
    pub second: u32,
    /// The nanoseconds into the second; a thousand million or more during a
    /// leap second.
    pub nanosecond: u32,
}

impl LocalTime {
    /// Every field lies in the range of its unit.
    pub open spec fn wf(&self) -> bool {
        &&& 1 <= self.month <= 12
        &&& 1 <= self.day <= 31
        &&& self.hour <= 23
        &&& self.minute <= 59
        &&& self.second <= 59
        &&& self.nanosecond < 2_000_000_000
    }
}

/// The first second that `chrono` holds: the start of the year -262143.
pub const MIN_SECS: i64 = -8_334_601_228_800;

/// The last second that `chrono` holds: the end of the year 262142.
pub const MAX_SECS: i64 = 8_210_266_876_799;

/// Whether `chrono` holds a time: its second lies in the years from -262143
/// to 262142, and its nanoseconds stay below a second, or below two in the
/// last second of a minute, which is how a leap second is written.
pub open spec fn representable(t: Timestamp) -> bool {
    &&& MIN_SECS <= t.secs <= MAX_SECS
    &&& (t.nanos < 1_000_000_000 || (t.nanos < 2_000_000_000 && t.secs % 60 == 59))
}

/// Calls `chrono::DateTime::from_timestamp`, moves the time into
/// `chrono::Local` and reads its calendar and clock fields. Which fields
/// come back depends on the time zone of the machine; each lies in the range
/// of its unit. There is none exactly where `chrono` does not hold the time.
#[verifier::external_body]
fn local_time(secs: i64, nanos: u32) -> (local: Option<LocalTime>)
    ensures
        local matches Some(l) ==> l.wf(),
        local.is_some() == representable(Timestamp { secs, nanos }),
{
    match chrono::DateTime::from_timestamp(secs, nanos) {
        Some(utc) => {
            let t = utc.with_timezone(&chrono::Local);
            Some(LocalTime {
                year: chrono::Datelike::year(&t),
                month: chrono::Datelike::month(&t),
                day: chrono::Datelike::day(&t),
                hour: chrono::Timelike::hour(&t),
                minute: chrono::Timelike::minute(&t),
                second: chrono::Timelike::second(&t),
                nanosecond: chrono::Timelike::nanosecond(&t),
            })
        },
        None => None,
    }
}

/// A year as the report shows it: four digits from 0 to 9999, and outside of
/// that a sign and at least four digits.
pub open spec fn year_text(year: int) -> Seq<char> {
    if 0 <= year <= 9999 {
        four_digits(year)
    } else if year < 0 {
        seq!['-'] + decimal_four((-year) as nat)
    } else {
        seq!['+'] + decimal(year as nat)
    }
}

/// The second that a clock shows: sixty during a leap second.
pub open spec fn shown_second(l: LocalTime) -> int {
    l.second + l.nanosecond / 1_000_000_000
}

/// A local time as the report shows it: year, month and day with dashes
/// between them, a blank, and hour, minute and second with colons between
/// them.
pub open spec fn time_text_spec(l: LocalTime) -> Seq<char> {
    year_text(l.year as int) + seq!['-'] + two_digits(l.month as int) + seq!['-'] + two_digits(
        l.day as int,
    ) + seq![' '] + two_digits(l.hour as int) + seq![':'] + two_digits(l.minute as int) + seq![
        ':',
    ] + two_digits(shown_second(l))
}

/// Writes a local time as the report shows it.
pub fn time_text(l: &LocalTime) -> (text: String)
    requires
        l.wf(),
    ensures
        text@ == time_text_spec(*l),
{
    proof {
        reveal_strlit("-");
        reveal_strlit("+");
        reveal_strlit(" ");
        reveal_strlit(":");
    }
    let mut out = String::new();
    let year: i64 = l.year as i64;
    if 0 <= year && year <= 9999 {
        push_four(&mut out, year as u64);
    } else if year < 0 {
        out.append("-");
        let magnitude: u64 = (0 - year) as u64;
        if magnitude < 10000 {
            push_four(&mut out, magnitude);
        } else {
            push_decimal(&mut out, magnitude);
        }
    } else {
        out.append("+");
        push_decimal(&mut out, year as u64);
    }
    assert(out@ =~= year_text(l.year as int));
    out.append("-");
    push_two(&mut out, l.month as u64);
    out.append("-");
    push_two(&mut out, l.day as u64);
    out.append(" ");
    push_two(&mut out, l.hour as u64);
    out.append(":");
    push_two(&mut out, l.minute as u64);
    out.append(":");
    push_two(&mut out, (l.second + l.nanosecond / 1_000_000_000) as u64);
    assert(out@ =~= time_text_spec(*l));
    out
}

/// One line of the report.
#[derive(Debug)]
pub struct Row {
    pub path: String,
    pub size: String,
    pub modified: String,
}

/// The cell for a time of modification: the local time as text where there
/// is one, a dash where there is none.
pub fn modified_cell(local: Option<LocalTime>) -> (cell: String)
    requires
        local matches Some(l) ==> l.wf(),
    ensures
        cell@ == match local {
            Some(l) => time_text_spec(l),
            None => "-"@,
        },
{
    match local {
        Some(l) => time_text(&l),
        None => "-".to_owned(),
    }
}

/// What the cell for a time of modification shows: a dash for a file
/// without one; for a file with one, some local time in the form of the
/// report. Only a time that `chrono` does not hold, and so has no local time,
/// is shown as a dash too.
pub open spec fn shows_time(cell: Seq<char>, modified: Option<Timestamp>) -> bool {
    match modified {
        None => cell == "-"@,
        Some(t) => if representable(t) {
            exists|l: LocalTime| l.wf() && cell == #[trigger] time_text_spec(l)
        } else {
            cell == "-"@
        },
    }
}

/// Renders one record: its path as text, its size in binary units, and its
/// time of modification as local time. A record without a time of
/// modification shows a dash in its place.
pub fn render_row(file: &DiscoveredFile) -> (row: Row)
    ensures
        row.path@ == utf8_lossy_text(file.path@),
        row.size@ == binary_size_text(file.size),
        shows_time(row.modified@, file.modified),
{
    let local = match file.modified {
        Some(t) => local_time(t.secs, t.nanos),
        None => None,
    };
    Row {
        path: path_text(file.path.as_slice()),
        size: size_text(file.size),
        modified: modified_cell(local),
    }
}

/// Renders every record, in order.
pub fn render_rows(files: &Vec<DiscoveredFile>) -> (rows: Vec<Row>)
    ensures
        rows@.len() == files@.len(),
        forall|i: int|
            0 <= i < rows@.len() ==> {
                &&& (#[trigger] rows@[i]).path@ == utf8_lossy_text(files@[i].path@)
                &&& rows@[i].size@ == binary_size_text(files@[i].size)
                &&& shows_time(rows@[i].modified@, files@[i].modified)
            },
{
    let mut rows: Vec<Row> = Vec::new();
    let mut i: usize = 0;
    while i < files.len()
        invariant
            0 <= i <= files@.len(),
            rows@.len() == i,
            forall|j: int|
                0 <= j < i ==> {
                    &&& (#[trigger] rows@[j]).path@ == utf8_lossy_text(files@[j].path@)
                    &&& rows@[j].size@ == binary_size_text(files@[j].size)
                    &&& shows_time(rows@[j].modified@, files@[j].modified)
                },
        decreases files@.len() - i,
    {
        let row = render_row(&files[i]);
        rows.push(row);
        i += 1;
    }
    rows
}

} // verus!
