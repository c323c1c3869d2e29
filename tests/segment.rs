use telemetry_view::segment::{chunk_by_time, time_gap, TelemetryRecord};

const SECOND: u64 = 1_000_000_000;

fn records(stamps: &[u64]) -> Vec<TelemetryRecord<usize>> {
    stamps
        .iter()
        .enumerate()
        .map(|(i, &t)| TelemetryRecord { timestamp_ns: t, measurement: i })
        .collect()
}

fn shape(ws: &[Vec<TelemetryRecord<usize>>]) -> Vec<Vec<usize>> {
    ws.iter().map(|w| w.iter().map(|r| r.measurement).collect()).collect()
}

#[test]
fn test_csv_chunked_read() {
    let time_chunk_duration = 1_000_000_000;
    let stamps = [
        0,
        500_000_000,
        2_000_000_000,
        2_500_000_000,
        4_000_000_000,
        4_100_000_000,
    ];
    let actual = chunk_by_time(&records(&stamps), time_chunk_duration);

    assert_eq!(3, actual.len());
    for chunk in actual.iter() {
        assert_eq!(2, chunk.len());
    }
}

#[test]
fn empty_input_gives_no_windows() {
    let actual = chunk_by_time(&records(&[]), SECOND);
    assert!(actual.is_empty());
}

#[test]
fn single_sample_gives_one_window() {
    let actual = chunk_by_time(&records(&[42]), SECOND);
    assert_eq!(shape(&actual), vec![vec![0]]);
    assert_eq!(actual[0][0].timestamp_ns, 42);
}

#[test]
fn windows_concatenate_to_input() {
    let stamps = [10, 20, 5_000_000_000, 5_000_000_001, 9_000_000_000, 9_500_000_000, 20_000_000_000];
    let actual = chunk_by_time(&records(&stamps), SECOND);
    let flat: Vec<u64> = actual.iter().flatten().map(|r| r.timestamp_ns).collect();
    assert_eq!(flat, stamps.to_vec());
    assert_eq!(shape(&actual), vec![vec![0, 1], vec![2, 3], vec![4, 5], vec![6]]);
}

#[test]
fn gap_equal_to_threshold_does_not_split() {
    let actual = chunk_by_time(&records(&[0, SECOND, 2 * SECOND]), SECOND);
    assert_eq!(shape(&actual), vec![vec![0, 1, 2]]);
}

#[test]
fn gap_one_past_threshold_splits() {
    let actual = chunk_by_time(&records(&[0, SECOND + 1]), SECOND);
    assert_eq!(shape(&actual), vec![vec![0], vec![1]]);
}

#[test]
fn gap_is_measured_from_previous_sample() {
    let actual = chunk_by_time(&records(&[0, 800_000_000, 1_600_000_000, 2_400_000_000]), SECOND);
    assert_eq!(shape(&actual), vec![vec![0, 1, 2, 3]]);
}

#[test]
fn timestamp_regression_stays_in_window() {
    let actual = chunk_by_time(&records(&[5 * SECOND, 0, 100]), SECOND);
    assert_eq!(shape(&actual), vec![vec![0, 1, 2]]);
}

#[test]
fn zero_threshold_splits_on_every_forward_step() {
    let actual = chunk_by_time(&records(&[1, 1, 2, 2]), 0);
    assert_eq!(shape(&actual), vec![vec![0, 1], vec![2, 3]]);
}

#[test]
fn float_measurements_ride_along() {
    let recs = vec![
        TelemetryRecord { timestamp_ns: 0, measurement: [1.5f64, 2.5, 3.5] },
        TelemetryRecord { timestamp_ns: 3 * SECOND, measurement: [4.5f64, 5.5, 6.5] },
    ];
    let actual = chunk_by_time(&recs, SECOND);
    assert_eq!(actual.len(), 2);
    assert_eq!(actual[1][0].measurement, [4.5, 5.5, 6.5]);
}

#[test]
fn time_gap_saturates() {
    assert_eq!(time_gap(10, 25), 15);
    assert_eq!(time_gap(25, 10), 0);
    assert_eq!(time_gap(0, u64::MAX), u64::MAX);
}
