//! The flat file of readings: one line for each reading, made of the time and
//! the three values with commas between them, and closed by a line feed.
//! There is no header and nothing else in the file.

use crate::decimal::{format_i64, int_text, is_digit, lemma_int_text_chars, lemma_int_text_round_trip, parse_i64, text_int};
use crate::number::{is_number, lemma_number_has_no_separator};
use crate::reading::{Field, Reading, ReadingView};
use crate::text::{chars_of, find, find_char, lemma_find, lemma_find_is, string_of};
use vstd::prelude::*;
use vstd::slice::slice_subrange;

verus! {

/// The line that records a reading: `timestamp,cpm,acpm,usv`.
pub open spec fn line_text(r: ReadingView) -> Seq<char> {
    int_text(r.timestamp) + seq![','] + r.cpm + seq![','] + r.acpm + seq![','] + r.usv
}

/// What is appended to the file for a reading: its line and a line feed.
pub open spec fn record_text(r: ReadingView) -> Seq<char> {
    line_text(r).push('\n')
}

/// The reading that a line records: the line must be four fields with a comma
/// between each two, the first a whole number of seconds that fits 64 bits,
/// the other three written as numbers. `None` for any other line.
pub open spec fn line_reading(line: Seq<char>) -> Option<ReadingView> {
    let a = find(line, ',', 0);
    let b = find(line, ',', a + 1);
    let c = find(line, ',', b + 1);
    if c < line.len() {
        let timestamp = text_int(line.subrange(0, a));
        let cpm = line.subrange(a + 1, b);
        let acpm = line.subrange(b + 1, c);
        let usv = line.subrange(c + 1, line.len() as int);
        if timestamp is Some && is_number(cpm) && is_number(acpm) && is_number(usv) {
            Some(ReadingView { timestamp: timestamp->0, cpm, acpm, usv })
        } else {
            None
        }
    } else {
        None
    }
}

/// The readings that a file holds, first line first. `None` when some line
/// records no reading or the last line is not closed by a line feed.
pub open spec fn file_readings(content: Seq<char>) -> Option<Seq<ReadingView>>
    decreases content.len(),
{
    let end = find(content, '\n', 0);
    if content.len() == 0 {
        Some(Seq::empty())
    } else if 0 <= end < content.len() {
        match (line_reading(content.take(end)), file_readings(content.skip(end + 1))) {
            (Some(first), Some(rest)) => Some(seq![first] + rest),
            _ => None,
        }
    } else {
        None
    }
}

/// The file after a record for each of `readings` was appended to `content`,
/// one after the other in the order of `readings`.
pub open spec fn appended(content: Seq<char>, readings: Seq<ReadingView>) -> Seq<char>
    decreases readings.len(),
{
    if readings.len() == 0 {
        content
    } else {
        appended(content, readings.drop_last()) + record_text(readings.last())
    }
}

/// In the line of a reading, the commas are the three that stand between
/// the fields, and no line feed occurs.
proof fn lemma_line_chars(r: ReadingView)
    requires
        r.valid(),
    ensures
        ({
            let line = line_text(r);
            let a = int_text(r.timestamp).len() as int;
            let b = a + 1 + r.cpm.len();
            let c = b + 1 + r.acpm.len();
            forall|i: int|
                0 <= i < line.len() ==> {
                    &&& #[trigger] line[i] != '\n'
                    &&& (line[i] == ',' <==> i == a || i == b || i == c)
                }
        }),
{
    let line = line_text(r);
    let t = int_text(r.timestamp);
    let a = t.len() as int;
    let b = a + 1 + r.cpm.len();
    let c = b + 1 + r.acpm.len();
    lemma_int_text_chars(r.timestamp);
    lemma_number_has_no_separator(r.cpm);
    lemma_number_has_no_separator(r.acpm);
    lemma_number_has_no_separator(r.usv);
    assert forall|i: int| 0 <= i < line.len() implies {
        &&& #[trigger] line[i] != '\n'
        &&& (line[i] == ',' <==> i == a || i == b || i == c)
    } by {
        if i < a {
            assert(line[i] == t[i]);
            assert(is_digit(t[i]) || t[i] == '-');
        } else if a < i < b {
            assert(line[i] == r.cpm[i - a - 1]);
        } else if b < i < c {
            assert(line[i] == r.acpm[i - b - 1]);
        } else if c < i {
            assert(line[i] == r.usv[i - c - 1]);
        }
    }
}

/// Where the three commas of the line of a reading stand, and what lies
/// between them.
proof fn lemma_line_layout(r: ReadingView)
    requires
        r.valid(),
    ensures
        ({
            let line = line_text(r);
            let a = int_text(r.timestamp).len() as int;
            let b = a + 1 + r.cpm.len();
            let c = b + 1 + r.acpm.len();
            &&& find(line, ',', 0) == a
            &&& find(line, ',', a + 1) == b
            &&& find(line, ',', b + 1) == c
            &&& c < line.len()
            &&& line.subrange(0, a) == int_text(r.timestamp)
            &&& line.subrange(a + 1, b) == r.cpm
            &&& line.subrange(b + 1, c) == r.acpm
            &&& line.subrange(c + 1, line.len() as int) == r.usv
        }),
{
    let line = line_text(r);
    let t = int_text(r.timestamp);
    let a = t.len() as int;
    let b = a + 1 + r.cpm.len();
    let c = b + 1 + r.acpm.len();
    lemma_line_chars(r);
    lemma_int_text_chars(r.timestamp);
    lemma_number_has_no_separator(r.usv);
    lemma_find_is(line, ',', 0, a);
    lemma_find_is(line, ',', a + 1, b);
    lemma_find_is(line, ',', b + 1, c);
    assert(line.subrange(0, a) =~= t);
    assert(line.subrange(a + 1, b) =~= r.cpm);
    assert(line.subrange(b + 1, c) =~= r.acpm);
    assert(line.subrange(c + 1, line.len() as int) =~= r.usv);
}

/// Reading back the line of a reading gives the reading: the time and the
/// text of each of the three values, character for character.
pub proof fn lemma_line_round_trip(r: ReadingView)
    requires
        r.valid(),
    ensures
        line_reading(line_text(r)) == Some(r),
{
    lemma_line_layout(r);
    lemma_int_text_round_trip(r.timestamp);
}

/// Two readings with the same line are the same reading.
pub proof fn lemma_line_tells_readings_apart(r1: ReadingView, r2: ReadingView)
    requires
        r1.valid(),
        r2.valid(),
        line_text(r1) == line_text(r2),
    ensures
        r1 == r2,
{
    lemma_line_round_trip(r1);
    lemma_line_round_trip(r2);
}

/// A file that holds the record of one reading and nothing else holds that
/// reading.
proof fn lemma_single_record(r: ReadingView)
    requires
        r.valid(),
    ensures
        file_readings(record_text(r)) == Some(seq![r]),
{
    let line = line_text(r);
    let record = record_text(r);
    let end = line.len() as int;
    lemma_line_chars(r);
    assert forall|i: int| 0 <= i < end implies #[trigger] record[i] != '\n' by {
        assert(record[i] == line[i]);
    }
    lemma_find_is(record, '\n', 0, end);
    assert(record.take(end) =~= line);
    assert(record.skip(end + 1) =~= Seq::<char>::empty());
    lemma_line_round_trip(r);
    assert(file_readings(record.skip(end + 1)) == Some(Seq::<ReadingView>::empty()));
    assert(seq![r] + Seq::<ReadingView>::empty() =~= seq![r]);
}

/// Appending the record of a reading to a file adds that reading behind the
/// ones the file holds, and changes none of them.
pub proof fn lemma_append_adds_one(content: Seq<char>, r: ReadingView)
    requires
        r.valid(),
        file_readings(content) is Some,
    ensures
        file_readings(content + record_text(r)) == Some(file_readings(content)->0.push(r)),
    decreases content.len(),
{
    let record = record_text(r);
    let longer = content + record;
    if content.len() == 0 {
        assert(longer =~= record);
        lemma_single_record(r);
        assert(Seq::<ReadingView>::empty().push(r) =~= seq![r]);
    } else {
        let end = find(content, '\n', 0);
        lemma_find(content, '\n', 0);
        assert forall|i: int| 0 <= i < end implies #[trigger] longer[i] != '\n' by {
            assert(longer[i] == content[i]);
        }
        assert(longer[end] == content[end]);
        lemma_find_is(longer, '\n', 0, end);
        assert(longer.take(end) =~= content.take(end));
        assert(longer.skip(end + 1) =~= content.skip(end + 1) + record);
        lemma_append_adds_one(content.skip(end + 1), r);
        let first = line_reading(content.take(end))->0;
        let rest = file_readings(content.skip(end + 1))->0;
        assert(seq![first] + rest.push(r) =~= (seq![first] + rest).push(r));
    }
}

/// A file to which the records of any readings were appended, in any order
/// of arrival, holds one reading more for each of them, with the values of
/// each as they were handed in, and still holds what it held before.
pub proof fn lemma_every_append_is_kept(content: Seq<char>, readings: Seq<ReadingView>)
    requires
        file_readings(content) is Some,
        forall|i: int| 0 <= i < readings.len() ==> (#[trigger] readings[i]).valid(),
    ensures
        file_readings(appended(content, readings)) == Some(file_readings(content)->0 + readings),
    decreases readings.len(),
{
    if readings.len() == 0 {
        assert(file_readings(content)->0 + readings =~= file_readings(content)->0);
    } else {
        let earlier = readings.drop_last();
        lemma_every_append_is_kept(content, earlier);
        lemma_append_adds_one(appended(content, earlier), readings.last());
        assert((file_readings(content)->0 + earlier).push(readings.last()) =~= file_readings(
            content,
        )->0 + readings);
    }
}

/// Recording the same reading twice leaves two records of it: a second
/// write is not taken for a repetition of the first.
pub proof fn lemma_same_reading_twice(content: Seq<char>, r: ReadingView)
    requires
        r.valid(),
        file_readings(content) is Some,
    ensures
        file_readings(content + record_text(r) + record_text(r)) == Some(
            file_readings(content)->0.push(r).push(r),
        ),
{
    lemma_append_adds_one(content, r);
    lemma_append_adds_one(content + record_text(r), r);
}

/// The line that records `reading`.
pub fn to_line(reading: &Reading) -> (line: String)
    ensures
        line@ == line_text(reading@),
{
    let mut line = format_i64(reading.timestamp());
    line.push(',');
    line.append(reading.value(Field::Cpm));
    line.push(',');
    line.append(reading.value(Field::Acpm));
    line.push(',');
    line.append(reading.value(Field::Usv));
    assert(line@ =~= line_text(reading@));
    line
}

/// What the file sink appends for `reading`: its line, closed by a line feed.
pub fn to_record(reading: &Reading) -> (record: String)
    ensures
        record@ == record_text(reading@),
{
    let mut record = to_line(reading);
    record.push('\n');
    record
}

/// The reading that `line` records, if it records one.
pub fn parse_line(line: &str) -> (r: Option<Reading>)
    ensures
        match r {
            Some(reading) => line_reading(line@) == Some(reading@) && reading@.valid(),
            None => line_reading(line@) is None,
        },
{
    let chars = chars_of(line);
    let s = chars.as_slice();
    let a: usize = find_char(s, ',', 0);
    if a == s.len() {
        return None;
    }
    let b: usize = find_char(s, ',', a + 1);
    if b == s.len() {
        return None;
    }
    let c: usize = find_char(s, ',', b + 1);
    if c == s.len() {
        return None;
    }
    let timestamp: i64 = match parse_i64(slice_subrange(s, 0, a)) {
        Some(t) => t,
        None => {
            return None;
        },
    };
    let cpm = string_of(slice_subrange(s, a + 1, b));
    let acpm = string_of(slice_subrange(s, b + 1, c));
    let usv = string_of(slice_subrange(s, c + 1, s.len()));
    match Reading::new(timestamp, cpm, acpm, usv) {
        Ok(reading) => Some(reading),
        Err(_) => None,
    }
}

} // verus!
