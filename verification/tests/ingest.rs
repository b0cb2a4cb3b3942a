use tides_ft::series::{DataSet, TideError, WaterRecord};
use tides_ft::sweep::fourier;

const FREQ_ONE: i64 = 1_000_000_000_000;
const LEVEL_ONE: i64 = 1_000_000;

fn record(date: &str, time: &str, level: i64) -> WaterRecord {
    WaterRecord {
        date: date.to_string(),
        time: time.to_string(),
        water_level: level,
    }
}

#[test]
fn timestamps_become_elapsed_seconds() {
    let records = vec![
        record("2020/01/01", "23:00", LEVEL_ONE),
        record("2020/01/02", "01:00", 2 * LEVEL_ONE),
        record("2020/01/02", "01:30", 3 * LEVEL_ONE),
    ];
    let data = DataSet::from_records(&records).unwrap();
    assert_eq!(data.len(), 3);
    assert_eq!(data.point_at(0).time, 0);
    assert_eq!(data.point_at(1).time, 7200);
    assert_eq!(data.point_at(2).time, 9000);
    assert_eq!(data.point_at(2).water_level, 3 * LEVEL_ONE);
}

#[test]
fn malformed_timestamp_is_rejected() {
    let records = vec![
        record("2020/01/01", "00:00", LEVEL_ONE),
        record("2020-01-02", "00:00", LEVEL_ONE),
    ];
    assert!(matches!(
        DataSet::from_records(&records),
        Err(TideError::MalformedTimestamp)
    ));
}

#[test]
fn empty_record_list_is_rejected() {
    let records: Vec<WaterRecord> = vec![];
    assert!(matches!(
        DataSet::from_records(&records),
        Err(TideError::EmptyInput)
    ));
}

#[test]
fn repeated_timestamp_is_rejected() {
    let records = vec![
        record("2020/01/01", "00:00", LEVEL_ONE),
        record("2020/01/01", "00:00", 2 * LEVEL_ONE),
    ];
    assert!(matches!(
        DataSet::from_records(&records),
        Err(TideError::DegenerateSegment)
    ));
}

#[test]
fn three_row_csv_sweeps_to_the_trapezoid_mean() {
    // Three rows an hour apart with verified levels 1.0, 2.0, 1.0: one sweep
    // point at zero frequency, whose amplitude is the time-weighted average
    // of the triangular profile, exactly 1.5.
    let text = "Date,Time (GMT),Predicted (m),Verified (m)\n\
                2020/01/01,00:00,0.9,1.0\n\
                2020/01/01,01:00,1.9,2.0\n\
                2020/01/01,02:00,0.9,1.0\n";
    let mut reader = csv::Reader::from_reader(text.as_bytes());
    let mut records: Vec<WaterRecord> = Vec::new();
    for row in reader.records() {
        let row = row.unwrap();
        let verified: f64 = row.get(3).unwrap().parse().unwrap();
        records.push(WaterRecord {
            date: row.get(0).unwrap().to_string(),
            time: row.get(1).unwrap().to_string(),
            water_level: (verified * LEVEL_ONE as f64).round() as i64,
        });
    }
    let data = DataSet::from_records(&records).unwrap();
    assert_eq!(data.period_length(), 7200);
    let points = fourier(&data, 0, 0, FREQ_ONE).unwrap();
    assert_eq!(points.len(), 1);
    assert_eq!(points[0].freq, 0);
    assert_eq!(points[0].amplitude, 1_500_000_000_000);
}
