use gmc_ingest::reading::{Field, Reading};
use gmc_ingest::record::{parse_line, to_line, to_record};

fn reading(timestamp: i64, cpm: &str, acpm: &str, usv: &str) -> Reading {
    Reading::new(timestamp, cpm.to_string(), acpm.to_string(), usv.to_string()).unwrap()
}

fn of_floats(timestamp: i64, cpm: f64, acpm: f64, usv: f64) -> Reading {
    Reading::new(timestamp, cpm.to_string(), acpm.to_string(), usv.to_string()).unwrap()
}

#[test]
fn the_line_of_a_reading() {
    let r = reading(1700000000, "10.5", "12.3", "0.05");
    assert_eq!(to_line(&r), "1700000000,10.5,12.3,0.05");
    assert_eq!(to_record(&r), "1700000000,10.5,12.3,0.05\n");
}

#[test]
fn the_line_of_a_reading_from_before_the_epoch() {
    let r = reading(-3, "1", "2", "3");
    assert_eq!(to_line(&r), "-3,1,2,3");
}

#[test]
fn a_line_is_read_back() {
    let r = parse_line("1700000000,10.5,12.3,0.05").unwrap();
    assert_eq!(r.timestamp(), 1700000000);
    assert_eq!(r.value(Field::Cpm), "10.5");
    assert_eq!(r.value(Field::Acpm), "12.3");
    assert_eq!(r.value(Field::Usv), "0.05");
}

#[test]
fn lines_that_record_nothing_are_refused() {
    for line in [
        "",
        "1700000000",
        "1700000000,1",
        "1700000000,1,2",
        "1700000000,1,2,3,4",
        "1700000000,1,2,",
        ",1,2,3",
        "x,1,2,3",
        "1.5,1,2,3",
        "1700000000,a,2,3",
        "1700000000,1,b,3",
        "1700000000,1,2,c",
        "1700000000,1,2,3\n",
        "1700000000, 1,2,3",
        "99999999999999999999,1,2,3",
    ] {
        assert_eq!(parse_line(line), None, "{:?}", line);
    }
}

#[test]
fn reading_back_a_line_gives_the_reading() {
    let samples = [
        reading(0, "0", "0", "0"),
        reading(1700000000, "10.5", "12.3", "0.05"),
        reading(i64::MAX, "1e300", "-inf", "NaN"),
        reading(i64::MIN, ".5", "5.", "+1.5E-7"),
    ];
    for r in samples {
        assert_eq!(parse_line(&to_line(&r)), Some(r));
    }
}

#[test]
fn values_survive_the_file_exactly() {
    let samples: [(f64, f64, f64); 5] = [
        (10.5, 12.3, 0.05),
        (0.1, 0.2, 0.30000000000000004),
        (1e21, 1e-7, 123456789.12345679),
        (f64::MAX, f64::MIN_POSITIVE, 5e-324),
        (0.0, -0.0, f64::INFINITY),
    ];
    for (cpm, acpm, usv) in samples {
        let line = to_line(&of_floats(1, cpm, acpm, usv));
        let back = parse_line(&line).unwrap();
        assert_eq!(back.value(Field::Cpm).parse::<f64>().unwrap().to_bits(), cpm.to_bits());
        assert_eq!(back.value(Field::Acpm).parse::<f64>().unwrap().to_bits(), acpm.to_bits());
        assert_eq!(back.value(Field::Usv).parse::<f64>().unwrap().to_bits(), usv.to_bits());
    }
}

#[test]
fn the_same_reading_twice_leaves_two_records() {
    let r = reading(1700000000, "10.5", "12.3", "0.05");
    let mut file = String::new();
    file.push_str(&to_record(&r));
    file.push_str(&to_record(&r));
    assert_eq!(file, "1700000000,10.5,12.3,0.05\n1700000000,10.5,12.3,0.05\n");
    let back: Vec<Option<Reading>> = file.lines().map(parse_line).collect();
    assert_eq!(back, vec![Some(r.clone()), Some(r)]);
}

#[test]
fn a_hundred_readings_leave_a_hundred_records() {
    let readings: Vec<Reading> =
        (0..100).map(|i: i64| of_floats(1700000000 + i, i as f64 + 0.5, i as f64 * 1.25, i as f64 / 1000.0)).collect();
    let mut file = String::new();
    for r in readings.iter().rev() {
        file.push_str(&to_record(r));
    }
    let back: Vec<Reading> = file.lines().map(|line| parse_line(line).unwrap()).collect();
    assert_eq!(back.len(), 100);
    for (found, expected) in back.iter().zip(readings.iter().rev()) {
        assert_eq!(found, expected);
    }
    assert!(file.ends_with('\n'));
    assert_eq!(file.matches('\n').count(), 100);
}
