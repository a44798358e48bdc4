//! The handling of one request: from its query string to a reading, from the
//! reading to what the storage sink is asked to write, and from the sink's
//! answer to the log line and the response.

use crate::decimal::int_text;
use crate::number::is_number;
use crate::point::{points, points_of, FieldPoint, PointView};
use crate::query::{form_pairs, pairs_map, QueryParams};
use crate::reading::{
    lemma_numeric_params_are_read, read_params, result_view, Field, Reading, ReadingView,
    ValidationError,
};
use crate::record::{line_text, record_text, to_line, to_record};
use vstd::prelude::*;

verus! {

/// The status of every response.
pub const STATUS_OK: u16 = 200;

/// Reads the system clock with `std::time::SystemTime::now`, turns it into a
/// `chrono::DateTime<Utc>` through chrono's `From<SystemTime>`, and takes the
/// whole seconds since the epoch from it with `DateTime::timestamp`. A clock
/// that stands before the epoch gives negative seconds. Nothing is claimed of
/// the result. The conversion has no answer only for a clock outside the
/// years that chrono can hold, some 262,000 to either side of the epoch.
#[verifier::external_body]
fn unix_now() -> (seconds: i64) {
    chrono::DateTime::<chrono::Utc>::from(std::time::SystemTime::now()).timestamp()
}

/// The parameters of a request with the query string `query`.
pub open spec fn query_params(query: Option<&str>) -> Map<Seq<char>, Seq<char>> {
    match query {
        Some(q) => pairs_map(form_pairs(q@)),
        None => Map::empty(),
    }
}

/// The reading that a request with the query string `query` carries, when
/// it was received at `timestamp`.
pub fn receive_at(query: Option<&str>, timestamp: i64) -> (r: Result<Reading, ValidationError>)
    ensures
        result_view(r) == read_params(query_params(query), timestamp as int),
        r matches Ok(reading) ==> reading@.valid(),
{
    let params = QueryParams::parse(query);
    Reading::from_params(&params, timestamp)
}

/// The reading that a request with the query string `query` carries, stamped
/// with the time of the clock. Whether there is a reading, and which error
/// there is instead, does not depend on the time.
pub fn receive(query: Option<&str>) -> (r: Result<Reading, ValidationError>)
    ensures
        match r {
            Ok(reading) => {
                &&& reading@.valid()
                &&& read_params(query_params(query), reading@.timestamp) == Ok::<
                    ReadingView,
                    ValidationError,
                >(reading@)
            },
            Err(e) => forall|t: int| #[trigger]
                read_params(query_params(query), t) == Err::<ReadingView, ValidationError>(e),
        },
{
    receive_at(query, unix_now())
}

/// The two kinds of storage sink.
#[derive(Debug, Clone, Copy, PartialEq, Eq)]
pub enum SinkKind {
    /// A time-series database, written to in batches of points.
    Database,
    /// A flat file, appended to line by line.
    File,
}

/// What a write to a sink is: a batch of points or text to append.
pub ghost enum WriteView {
    Batch(Seq<PointView>),
    Append(Seq<char>),
}

/// The one write that a sink is asked to make for a reading.
#[derive(Debug, PartialEq, Eq)]
pub enum WriteRequest {
    /// Write these points to the database in one batch.
    Batch(Vec<FieldPoint>),
    /// Append this text to the file.
    Append(String),
}

impl View for WriteRequest {
    type V = WriteView;

    open spec fn view(&self) -> WriteView {
        match self {
            WriteRequest::Batch(batch) => WriteView::Batch(batch.deep_view()),
            WriteRequest::Append(text) => WriteView::Append(text@),
        }
    }
}

/// The write for a reading: for a database the batch of its three points,
/// for a file its record.
pub open spec fn write_of(kind: SinkKind, r: ReadingView) -> WriteView {
    match kind {
        SinkKind::Database => WriteView::Batch(points_of(r)),
        SinkKind::File => WriteView::Append(record_text(r)),
    }
}

/// A request that carries the three parameters, each written as a number,
/// leads to one write, and the write holds the time of receipt and those
/// three values: as the record `timestamp,cpm,acpm,usv` for a file, as the
/// points `cpm`, `acpm` and `usv` of measurement `sievert` for a database.
pub proof fn lemma_numeric_request_is_written(
    params: Map<Seq<char>, Seq<char>>,
    timestamp: int,
    kind: SinkKind,
    cpm: Seq<char>,
    acpm: Seq<char>,
    usv: Seq<char>,
)
    requires
        params.contains_pair(Field::Cpm.key_text(), cpm),
        params.contains_pair(Field::Acpm.key_text(), acpm),
        params.contains_pair(Field::Usv.key_text(), usv),
        is_number(cpm),
        is_number(acpm),
        is_number(usv),
    ensures
        read_params(params, timestamp) is Ok,
        write_of(kind, read_params(params, timestamp)->Ok_0) == match kind {
            SinkKind::File => WriteView::Append(
                int_text(timestamp) + seq![','] + cpm + seq![','] + acpm + seq![','] + usv + seq![
                    '\n',
                ],
            ),
            SinkKind::Database => WriteView::Batch(
                seq![
                    PointView {
                        measurement: "sievert"@,
                        tag_name: "location"@,
                        tag_value: "home"@,
                        field: "cpm"@,
                        value: cpm,
                    },
                    PointView {
                        measurement: "sievert"@,
                        tag_name: "location"@,
                        tag_value: "home"@,
                        field: "acpm"@,
                        value: acpm,
                    },
                    PointView {
                        measurement: "sievert"@,
                        tag_name: "location"@,
                        tag_value: "home"@,
                        field: "usv"@,
                        value: usv,
                    },
                ],
            ),
        },
{
    lemma_numeric_params_are_read(params, timestamp, cpm, acpm, usv);
    let r = ReadingView { timestamp, cpm, acpm, usv };
    assert(record_text(r) =~= int_text(timestamp) + seq![','] + cpm + seq![','] + acpm + seq![',']
        + usv + seq!['\n']);
}

/// The one write that a sink of the given kind is asked to make for
/// `reading`.
pub fn plan_write(kind: SinkKind, reading: &Reading) -> (w: WriteRequest)
    ensures
        w@ == write_of(kind, reading@),
{
    match kind {
        SinkKind::Database => WriteRequest::Batch(points(reading)),
        SinkKind::File => WriteRequest::Append(to_record(reading)),
    }
}

/// The answer to a request: its status and its body.
#[derive(Debug, PartialEq, Eq)]
pub struct Response {
    pub status: u16,
    pub body: String,
}

/// How the handling of a request ended: the line for the log and the
/// response for the sender.
#[derive(Debug, PartialEq, Eq)]
pub struct Outcome {
    pub log: String,
    pub response: Response,
}

/// The log line for a reading that the sink has written.
pub open spec fn success_log(r: ReadingView) -> Seq<char> {
    "REQUEST: "@ + line_text(r)
}

/// The log line for a write that failed, with the sink's account of it.
pub open spec fn failure_log(detail: Seq<char>) -> Seq<char> {
    "ERROR: "@ + detail
}

/// The log line for the sink's answer to the write for a reading.
pub open spec fn outcome_log(r: ReadingView, written: Result<(), String>) -> Seq<char> {
    match written {
        Ok(_) => success_log(r),
        Err(detail) => failure_log(detail@),
    }
}

/// Ends the handling of a request once the sink has answered. Whatever the
/// answer, the response has status 200 and an empty body; a failure shows
/// in the log line only.
pub fn conclude(reading: &Reading, written: Result<(), String>) -> (o: Outcome)
    ensures
        o.response.status == STATUS_OK,
        o.response.body@ == Seq::<char>::empty(),
        o.log@ == outcome_log(reading@, written),
{
    let log = match &written {
        Ok(_) => "REQUEST: ".to_owned().concat(to_line(reading).as_str()),
        Err(detail) => "ERROR: ".to_owned().concat(detail.as_str()),
    };
    Outcome { log, response: Response { status: STATUS_OK, body: String::new() } }
}

} // verus!
