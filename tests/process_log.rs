use plox::data_source::DataSource;
use plox::decimal::Decimal;
use plox::process_log::{LineProcessor, ProcessError};
use plox::timestamp::{ExtractedNaiveDateTime, TimestampFormat, DEFAULT_TIMESTAMP_STR};

fn plot_processor(guard: &str, field: &str, format: &str) -> LineProcessor {
    LineProcessor::from_data_source(
        DataSource::new_plot_field(Some(guard.to_string()), field.to_string()),
        Some("output.csv".to_string()),
        TimestampFormat::from_format(format),
        "input.log".to_string(),
    )
    .unwrap()
}

fn value(d: &Decimal) -> f64 {
    d.to_text().parse().unwrap()
}

fn date_of(t: &ExtractedNaiveDateTime) -> Option<(i32, u32, u32)> {
    match t {
        ExtractedNaiveDateTime::DateTime(d) => Some((d.year, d.month, d.day)),
        ExtractedNaiveDateTime::Time(_) => None,
    }
}

fn hms_milli(t: &ExtractedNaiveDateTime) -> (u32, u32, u32, u32) {
    let time = t.time();
    (time.secs / 3600, (time.secs % 3600) / 60, time.secs % 60, time.nano / 1_000_000)
}

#[test]
fn test_line_processing_00() {
    let log_line = "2025-04-03 11:32:48.027 INFO main: operation duration=12.5ms";
    let mut processor = plot_processor("operation", "duration", DEFAULT_TIMESTAMP_STR);

    assert!(processor.guard_matches(log_line));
    let (g, matched) = processor.try_match(log_line).unwrap();
    let (captures, timestamp) = matched.unwrap();
    assert!(g);
    processor.process(captures, timestamp);

    assert_eq!(processor.records.len(), 1);
    let record = &processor.records[0];
    assert_eq!(value(&record.value), 12.5);
    assert_eq!(record.count, 1);
    assert_eq!(record.delta, None);
}

#[test]
fn test_line_processing_single_line_check() {
    let log_line = "2025-04-03 11:32:48.027 INFO main: operation duration:12.5us, val:127.0ms";
    let mut processor =
        plot_processor("operation", r"duration:([\d\.]+)(\w+)?", DEFAULT_TIMESTAMP_STR);

    assert!(processor.guard_matches(log_line));
    let (g, matched) = processor.try_match(log_line).unwrap();
    let (captures, timestamp) = matched.unwrap();
    assert!(g);
    processor.process(captures, timestamp);

    assert_eq!(date_of(&timestamp), Some((2025, 4, 3)));
    assert_eq!(hms_milli(&timestamp), (11, 32, 48, 27));

    assert_eq!(processor.records.len(), 1);
    let record = &processor.records[0];
    assert_eq!(value(&record.value), 0.0125);
    assert_eq!(record.count, 1);
    assert_eq!(record.delta, None);
}

fn column_line_check(log_line: &str, format: &str, date: Option<(i32, u32, u32)>) {
    let mut processor =
        plot_processor("polkadot-parach", r"^\s+(?:[\d\.]+\s+){3}([\d\.]+)", format);

    assert!(processor.guard_matches(log_line));
    let (g, matched) = processor.try_match(log_line).unwrap();
    let (captures, timestamp) = matched.unwrap();
    assert!(g);

    assert_eq!(date_of(&timestamp), date);
    let (h, m, s, _) = hms_milli(&timestamp);
    assert_eq!((h, m, s), if format == "[%s]" { (23, 16, 39) } else { (8, 26, 13) });

    processor.process(captures, timestamp);

    assert_eq!(processor.records.len(), 1);
    let record = &processor.records[0];
    assert_eq!(value(&record.value), 3.17);
    assert_eq!(record.count, 1);
    assert_eq!(record.delta, None);
}

#[test]
fn test_line_processing_date_format_no_year2() {
    column_line_check(
        "Apr 20 08:26:13 AM  1000     25131   6737.00      3.17 817575604 3179060   2.41  polkadot-parach",
        "%b %d %I:%M:%S %p",
        Some((2025, 4, 20)),
    );
}

#[test]
fn test_line_processing_date_format_seconds_since_epoch() {
    column_line_check(
        "[1577834199]  1000     25131   6737.00      3.17 817575604 3179060   2.41  polkadot-parach",
        "[%s]",
        Some((2019, 12, 31)),
    );
}

#[test]
fn test_line_processing_date_format_no_year() {
    column_line_check(
        "035 08:26:13 AM  1000     25131   6737.00      3.17 817575604 3179060   2.41  polkadot-parach",
        "%j %I:%M:%S %p",
        Some((2025, 2, 4)),
    );
}

#[test]
fn test_line_processing_date_format() {
    column_line_check(
        "2025 035 08:26:13 AM  1000     25131   6737.00      3.17 817575604 3179060   2.41  polkadot-parach",
        "%Y %j %I:%M:%S %p",
        Some((2025, 2, 4)),
    );
}

#[test]
fn test_line_processing_time_only() {
    column_line_check(
        "08:26:13 AM  1000     25131   6737.00      3.17 817575604 3179060   2.41  polkadot-parach",
        "%I:%M:%S %p",
        None,
    );
}

fn run_lines(processor: &mut LineProcessor, log_lines: &[&str]) {
    for log_line in log_lines {
        assert!(processor.guard_matches(log_line));
        let (g, matched) = processor.try_match(log_line).unwrap();
        let (captures, timestamp) = matched.unwrap();
        assert!(g);
        processor.process(captures, timestamp);
    }
}

#[test]
fn test_line_processing_multi_line_field() {
    let log_lines = [
        "2025-04-03 11:32:48.027 INFO main: operation duration=1.5",
        "2025-04-03 11:32:48.054 INFO main: operation duration=2.5",
        "2025-04-03 11:32:49.054 INFO main: operation duration=3.5",
        "2025-04-03 11:33:49.154 INFO main: operation duration=4.5",
        "2025-04-04 11:33:49.154 INFO main: operation duration=2.5",
    ];
    let mut processor = plot_processor("operation", "duration", DEFAULT_TIMESTAMP_STR);
    run_lines(&mut processor, &log_lines);

    assert_eq!(processor.records.len(), 5);
    let expected = [
        (1.5, 1, None),
        (2.5, 2, Some(27)),
        (3.5, 3, Some(1000)),
        (4.5, 4, Some(60100)),
        (2.5, 5, Some(86400000)),
    ];
    for (record, (v, count, delta)) in processor.records.iter().zip(expected) {
        assert_eq!(value(&record.value), v);
        assert_eq!(record.count, count);
        assert_eq!(record.delta, delta);
    }
}

#[test]
fn test_line_processing_multi_line_regex() {
    let log_lines = [
        "2025-04-03 11:32:48.027 INFO main: operation duration:1.5ns, val:127.0",
        "2025-04-03 11:32:48.054 INFO main: operation duration:2.5us, val:127.0",
        "2025-04-03 11:32:49.054 INFO main: operation duration:3.5ms, val:127.0",
        "2025-04-03 11:33:49.154 INFO main: operation duration:4.5s, val:127.0",
        "2025-04-04 11:33:49.154 INFO main: operation duration:2.5s, val:127.0",
    ];
    let mut processor =
        plot_processor("operation", r"duration:([\d\.]+)(\w+)?", DEFAULT_TIMESTAMP_STR);
    run_lines(&mut processor, &log_lines);

    assert_eq!(processor.records.len(), 5);
    let expected = [
        (1.5 / 1_000_000.0, 1, None),
        (2.5 / 1000.0, 2, Some(27)),
        (3.5, 3, Some(1000)),
        (4500.0, 4, Some(60100)),
        (2500.0, 5, Some(86400000)),
    ];
    for (record, (v, count, delta)) in processor.records.iter().zip(expected) {
        assert_eq!(value(&record.value), v);
        assert_eq!(record.count, count);
        assert_eq!(record.delta, delta);
    }
}

#[test]
fn test_line_processing_bad_regex() {
    let r = r"^\s+(?:[\d\.]+\s+){3}([\d\.]+)([\d\.]+)([\d\.]+)";
    let err = LineProcessor::from_data_source(
        DataSource::new_plot_field(Some("polkadot-parach".to_string()), r.to_string()),
        Some("output.csv".to_string()),
        TimestampFormat::from_format("%Y %j %I:%M:%S %p"),
        "input.log".to_string(),
    )
    .err()
    .unwrap();

    if let ProcessError::RegexCapturesGroupsInvalidCount(x) = err {
        assert_eq!(x, r);
    } else {
        panic!("incorrect error value");
    }
}

#[test]
fn guard_miss_skips_line_without_counting() {
    let mut processor = plot_processor("operation", "duration", DEFAULT_TIMESTAMP_STR);
    let (g, matched) = processor.try_match("2025-04-03 11:32:48.027 INFO other duration=1").unwrap();
    assert!(!g);
    assert!(matched.is_none());
    assert_eq!(processor.timestamp_extraction_failure_count, 0);
    assert_eq!(processor.state.count, 0);
}

#[test]
fn fourth_bad_timestamp_is_fatal() {
    let mut processor = plot_processor("operation", "duration", DEFAULT_TIMESTAMP_STR);
    for _ in 0..3 {
        let (g, matched) = processor.try_match("garbage operation duration=1").unwrap();
        assert!(g);
        assert!(matched.is_none());
    }
    match processor.try_match("garbage operation duration=1") {
        Err(ProcessError::TimestampExtractionFailure(file, _, line)) => {
            assert_eq!(file, "input.log");
            assert_eq!(line, "garbage operation duration=1");
        },
        _ => panic!("expected a timestamp failure"),
    }
}

#[test]
fn event_sources_emit_fixed_values() {
    let line = "2025-04-03 11:32:48.027 INFO main: ERROR happened";
    let mut event = LineProcessor::from_data_source(
        DataSource::new_event_value(None, "ERROR".to_string(), Decimal { mantissa: 1011, exponent: -1 }),
        None,
        TimestampFormat::from_format(DEFAULT_TIMESTAMP_STR),
        "input.log".to_string(),
    )
    .unwrap();
    assert_eq!(event.feed_line(line).unwrap(), true);
    assert_eq!(value(&event.records[0].value), 101.1);

    let mut count = LineProcessor::from_data_source(
        DataSource::new_event_count(None, "ERROR".to_string()),
        None,
        TimestampFormat::from_format(DEFAULT_TIMESTAMP_STR),
        "input.log".to_string(),
    )
    .unwrap();
    assert_eq!(count.feed_line(line).unwrap(), true);
    assert_eq!(count.feed_line(line).unwrap(), true);
    assert_eq!(value(&count.records[1].value), 1.0);
    assert_eq!(count.records[1].count, 2);
    assert_eq!(count.records[1].delta, Some(0));
}

#[test]
fn unparsable_capture_is_dropped_but_counted() {
    let mut processor = plot_processor("op", r"v=([\d\.]+)", DEFAULT_TIMESTAMP_STR);
    assert!(processor.feed_line("2025-04-03 11:32:48.000 op v=1.2.3").unwrap());
    assert!(processor.feed_line("2025-04-03 11:32:48.100 op v=2").unwrap());
    assert_eq!(processor.records.len(), 1);
    assert_eq!(processor.records[0].count, 2);
    assert_eq!(processor.records[0].delta, Some(100));
}

#[test]
fn csv_lines_of_records() {
    let mut processor = plot_processor("operation", "duration", DEFAULT_TIMESTAMP_STR);
    processor.feed_line("2025-04-03 11:32:48.027 INFO main: operation duration=12.5ms").unwrap();
    processor.feed_line("2025-04-03 11:32:48.054 INFO main: operation duration=1.5s").unwrap();
    let lines = processor.csv_lines();
    assert_eq!(lines, vec![
        "date,time,value,count,delta".to_string(),
        "2025-04-03,11:32:48.027,12.5,1,0".to_string(),
        "2025-04-03,11:32:48.054,1500,2,27".to_string(),
    ]);

    let mut time_only = plot_processor("x", "v", "%H:%M:%S");
    time_only.feed_line("08:00:01 x v=3").unwrap();
    assert_eq!(time_only.csv_lines()[1], "2025-01-01,08:00:01.000,3,1,0");
}

#[test]
fn header_only_when_nothing_matches() {
    let mut processor = plot_processor("operation", "duration", DEFAULT_TIMESTAMP_STR);
    let lines = vec!["nothing here".to_string(), "nor here".to_string()];
    processor.process_lines(&lines).unwrap();
    assert_eq!(processor.csv_lines(), vec!["date,time,value,count,delta".to_string()]);
}

#[test]
fn preview_stops_after_limit() {
    let mut processor = plot_processor("op", "v", DEFAULT_TIMESTAMP_STR);
    let lines: Vec<String> = (0..5)
        .map(|i| format!("2025-04-03 11:32:4{}.000 op v={}", i, i))
        .collect();
    assert_eq!(processor.preview_lines(&lines, 2).unwrap(), 2);
    assert_eq!(processor.records.len(), 2);
}

#[test]
fn test_cmd_cat_bad_guard() {
    let lines: Vec<String> = vec![
        "2025-04-03 11:32:48.027 INFO om_module x=1000.0".to_string(),
        "2025-04-03 11:32:48.054 INFO om_module x=955.28".to_string(),
    ];
    let mut processor = plot_processor("xxxxxx", "xx", DEFAULT_TIMESTAMP_STR);
    processor.process_lines(&lines).unwrap();
    let output = processor.value_listing().join("\n");
    assert!(output.contains("No matches"));
}

#[test]
fn value_listing_shows_whole_numbers_with_a_fraction() {
    let lines: Vec<String> = vec![
        "2025-04-03 11:32:48.027 INFO om_module x=1000.0".to_string(),
        "2025-04-03 11:32:48.054 INFO om_module x=955.28".to_string(),
    ];
    let mut processor = plot_processor("om_module", "x", DEFAULT_TIMESTAMP_STR);
    processor.process_lines(&lines).unwrap();
    assert_eq!(processor.value_listing().join("\n"), "1000.0\n955.28");
}

#[test]
fn pattern_runs_on_the_remainder_only() {
    let mut processor = plot_processor("x", r"^\s*(\d+)", "%H:%M:%S");
    let (g, matched) = processor.try_match("08:00:01 x 5").unwrap();
    assert!(g);
    assert!(matched.is_none());
    let (_, matched) = processor.try_match("08:00:01 42 x").unwrap();
    let (caps, _) = matched.unwrap();
    assert_eq!(caps.value.as_deref(), Some("42"));
}
