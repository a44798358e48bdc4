use gmc_ingest::handler::{conclude, plan_write, receive, receive_at, Outcome, Response, SinkKind, WriteRequest, STATUS_OK};
use gmc_ingest::point::FieldPoint;
use gmc_ingest::reading::{Field, Reading, ValidationError};
use std::time::{SystemTime, UNIX_EPOCH};

const QUERY: &str = "CPM=10.5&ACPM=12.3&uSV=0.05";

fn seconds_now() -> i64 {
    SystemTime::now().duration_since(UNIX_EPOCH).unwrap().as_secs() as i64
}

fn expected_point(field: &str, value: &str) -> FieldPoint {
    FieldPoint {
        measurement: "sievert".to_string(),
        tag_name: "location".to_string(),
        tag_value: "home".to_string(),
        field: field.to_string(),
        value: value.to_string(),
    }
}

#[test]
fn a_query_is_received_as_a_reading() {
    let r = receive_at(Some(QUERY), 1700000000).unwrap();
    assert_eq!(r.timestamp(), 1700000000);
    assert_eq!(r.value(Field::Cpm), "10.5");
    assert_eq!(r.value(Field::Acpm), "12.3");
    assert_eq!(r.value(Field::Usv), "0.05");
}

#[test]
fn a_reading_is_stamped_while_the_request_is_handled() {
    let before = seconds_now();
    let r = receive(Some(QUERY)).unwrap();
    let after = seconds_now();
    assert!(before <= r.timestamp() && r.timestamp() <= after);
    assert_eq!(r.value(Field::Cpm), "10.5");
    assert_eq!(r.value(Field::Acpm), "12.3");
    assert_eq!(r.value(Field::Usv), "0.05");
}

#[test]
fn a_request_without_a_query_carries_no_reading() {
    assert_eq!(receive_at(None, 0), Err(ValidationError::Missing(Field::Cpm)));
    assert_eq!(receive(None), Err(ValidationError::Missing(Field::Cpm)));
    assert_eq!(receive(Some("")), Err(ValidationError::Missing(Field::Cpm)));
}

#[test]
fn a_malformed_query_carries_no_reading() {
    assert_eq!(receive_at(Some("CPM=1&ACPM=2"), 0), Err(ValidationError::Missing(Field::Usv)));
    assert_eq!(receive_at(Some("CPM=1&ACPM=high&uSV=3"), 0), Err(ValidationError::NotNumeric(Field::Acpm)));
    assert_eq!(receive(Some("CPM=&ACPM=2&uSV=3")), Err(ValidationError::NotNumeric(Field::Cpm)));
}

#[test]
fn the_file_sink_appends_one_line_and_the_response_is_empty() {
    let r = receive(Some(QUERY)).unwrap();
    let text = match plan_write(SinkKind::File, &r) {
        WriteRequest::Append(text) => text,
        WriteRequest::Batch(_) => panic!("a file sink appends"),
    };
    let line = text.strip_suffix('\n').unwrap();
    let (stamp, values) = line.split_once(',').unwrap();
    assert!(!stamp.is_empty() && stamp.chars().all(|c| c.is_ascii_digit()));
    assert_eq!(values, "10.5,12.3,0.05");
    let outcome = conclude(&r, Ok(()));
    assert_eq!(outcome.response, Response { status: 200, body: String::new() });
}

#[test]
fn the_file_sink_appends_the_record_of_the_reading() {
    let r = receive_at(Some(QUERY), 1700000000).unwrap();
    assert_eq!(plan_write(SinkKind::File, &r), WriteRequest::Append("1700000000,10.5,12.3,0.05\n".to_string()));
}

#[test]
fn the_database_sink_writes_a_batch_of_three_points() {
    let r = receive_at(Some(QUERY), 1700000000).unwrap();
    assert_eq!(
        plan_write(SinkKind::Database, &r),
        WriteRequest::Batch(vec![
            expected_point("cpm", "10.5"),
            expected_point("acpm", "12.3"),
            expected_point("usv", "0.05"),
        ])
    );
}

#[test]
fn a_written_reading_is_logged_as_a_request() {
    let r = receive_at(Some(QUERY), 1700000000).unwrap();
    let outcome = conclude(&r, Ok(()));
    assert_eq!(
        outcome,
        Outcome {
            log: "REQUEST: 1700000000,10.5,12.3,0.05".to_string(),
            response: Response { status: 200, body: String::new() },
        }
    );
}

#[test]
fn a_failed_write_is_logged_and_still_answered_with_200() {
    let r = receive_at(Some(QUERY), 1700000000).unwrap();
    let outcome = conclude(&r, Err("Permission denied (os error 13)".to_string()));
    assert_eq!(outcome.log, "ERROR: Permission denied (os error 13)");
    assert_eq!(outcome.response.status, STATUS_OK);
    assert_eq!(outcome.response.status, 200);
    assert_eq!(outcome.response.body, "");
    let outcome = conclude(&r, Err(String::new()));
    assert_eq!(outcome.log, "ERROR: ");
    assert_eq!(outcome.response.status, 200);
}

#[test]
fn the_same_query_twice_asks_for_two_writes() {
    let first = receive_at(Some(QUERY), 1700000000).unwrap();
    let second = receive_at(Some(QUERY), 1700000000).unwrap();
    let mut file = String::new();
    for r in [&first, &second] {
        match plan_write(SinkKind::File, r) {
            WriteRequest::Append(text) => file.push_str(&text),
            WriteRequest::Batch(_) => panic!("a file sink appends"),
        }
    }
    assert_eq!(file.lines().count(), 2);
    assert_eq!(file, "1700000000,10.5,12.3,0.05\n1700000000,10.5,12.3,0.05\n");
}

#[test]
fn readings_do_not_mix_their_values() {
    let readings: Vec<Reading> = (0..100)
        .map(|i: i64| receive_at(Some(&format!("CPM={}&ACPM={}.5&uSV=0.{}", i, i, i)), i).unwrap())
        .collect();
    for (i, r) in readings.iter().enumerate() {
        let expected = format!("{},{},{}.5,0.{}\n", i, i, i, i);
        assert_eq!(plan_write(SinkKind::File, r), WriteRequest::Append(expected));
    }
}

#[test]
fn a_reading_received_before_the_epoch_keeps_its_negative_time() {
    let r = receive_at(Some(QUERY), -86400).unwrap();
    assert_eq!(r.timestamp(), -86400);
    assert_eq!(plan_write(SinkKind::File, &r), WriteRequest::Append("-86400,10.5,12.3,0.05\n".to_string()));
    assert_eq!(conclude(&r, Ok(())).log, "REQUEST: -86400,10.5,12.3,0.05");
}
