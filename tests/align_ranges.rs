use chrono::{Datelike, NaiveDate, Timelike};
use plox::align_ranges::{csv_range_from_rows, resolve_panels_ranges_inner, PanelAlignmentMode, RangeError};
use plox::data_source::DataSource;
use plox::resolved_graph_config::{Line, PanelRangeMode, ResolvedGraphConfig, ResolvedLine, ResolvedPanel};
use plox::timestamp::{DateTime, TimeOfDay};

fn dt(y: i32, mo: u32, d: u32, h: u32, mi: u32, s: u32) -> DateTime {
    dt_milli(y, mo, d, h, mi, s, 0)
}

fn dt_milli(y: i32, mo: u32, d: u32, h: u32, mi: u32, s: u32, ms: u32) -> DateTime {
    let n = NaiveDate::from_ymd_opt(y, mo, d).unwrap().and_hms_milli_opt(h, mi, s, ms).unwrap();
    DateTime {
        year: n.year(),
        month: n.month(),
        day: n.day(),
        day_number: n.num_days_from_ce(),
        time: TimeOfDay { secs: n.num_seconds_from_midnight(), nano: n.nanosecond() },
    }
}

fn plot_line(start: DateTime, end: DateTime) -> ResolvedLine {
    let mut l = ResolvedLine::from_explicit_name(
        Line::new_with_data_source(DataSource::new_plot_field(
            Some("dummy".to_string()),
            "dummy".to_string(),
        )),
        "dummy".to_string(),
    );
    l.set_time_range(start, end);
    l
}

fn config(panels: Vec<Vec<ResolvedLine>>) -> ResolvedGraphConfig {
    ResolvedGraphConfig { panels: panels.into_iter().map(ResolvedPanel::new_with_lines).collect() }
}

fn assert_all(config: &ResolvedGraphConfig, start: DateTime, end: DateTime) {
    for panel in &config.panels {
        assert_eq!(panel.time_range.unwrap().0, start);
        assert_eq!(panel.time_range.unwrap().1, end);
    }
}

#[test]
fn two_lines_full() {
    let mut config = config(vec![vec![
        plot_line(dt(2025, 5, 17, 12, 0, 56), dt(2025, 5, 17, 12, 10, 0)),
        plot_line(dt(2025, 5, 17, 11, 0, 56), dt(2025, 5, 17, 13, 10, 0)),
    ]]);
    resolve_panels_ranges_inner(&mut config, PanelAlignmentMode::SharedOverlap);
    assert_all(&config, dt(2025, 5, 17, 11, 0, 56), dt(2025, 5, 17, 13, 10, 0));
}

#[test]
fn two_lines_best_fit() {
    let mut config = config(vec![vec![
        plot_line(dt(2025, 5, 17, 12, 0, 56), dt(2025, 5, 17, 12, 10, 0)),
        plot_line(dt(2025, 5, 17, 11, 0, 56), dt(2025, 5, 17, 13, 10, 0)),
    ]]);
    config.panels[0].params.time_range_mode = Some(PanelRangeMode::BestFit);
    resolve_panels_ranges_inner(&mut config, PanelAlignmentMode::SharedOverlap);
    assert_all(&config, dt(2025, 5, 17, 12, 0, 56), dt(2025, 5, 17, 12, 10, 0));
}

#[test]
fn two_lines_best_fit_no_overlap_fallback() {
    let mut config = config(vec![vec![
        plot_line(dt(2025, 5, 17, 12, 0, 56), dt(2025, 5, 17, 12, 10, 0)),
        plot_line(dt(2025, 5, 17, 12, 20, 56), dt(2025, 5, 17, 13, 10, 0)),
    ]]);
    config.panels[0].params.time_range_mode = Some(PanelRangeMode::BestFit);
    resolve_panels_ranges_inner(&mut config, PanelAlignmentMode::SharedOverlap);
    assert_all(&config, dt(2025, 5, 17, 12, 0, 56), dt(2025, 5, 17, 13, 10, 0));
}

fn two_by_two() -> ResolvedGraphConfig {
    config(vec![
        vec![
            plot_line(dt(2025, 5, 17, 12, 0, 56), dt(2025, 5, 17, 12, 30, 0)),
            plot_line(dt(2025, 5, 17, 11, 0, 56), dt(2025, 5, 17, 13, 10, 0)),
        ],
        vec![
            plot_line(dt(2025, 5, 16, 12, 10, 56), dt(2025, 5, 16, 12, 20, 0)),
            plot_line(dt(2025, 5, 16, 11, 0, 56), dt(2025, 5, 16, 13, 10, 0)),
        ],
    ])
}

fn assert_own_ranges(config: &ResolvedGraphConfig) {
    assert_eq!(config.panels[0].time_range.unwrap().0, dt(2025, 5, 17, 11, 0, 56));
    assert_eq!(config.panels[0].time_range.unwrap().1, dt(2025, 5, 17, 13, 10, 0));
    assert_eq!(config.panels[1].time_range.unwrap().0, dt(2025, 5, 16, 11, 0, 56));
    assert_eq!(config.panels[1].time_range.unwrap().1, dt(2025, 5, 16, 13, 10, 0));
}

#[test]
fn two_lines_x_two_panels_independent() {
    let mut config = two_by_two();
    resolve_panels_ranges_inner(&mut config, PanelAlignmentMode::PerPanel);
    assert_own_ranges(&config);
}

#[test]
fn two_lines_x_two_panels_align_global_no_overlap() {
    let mut config = two_by_two();
    resolve_panels_ranges_inner(&mut config, PanelAlignmentMode::SharedOverlap);
    assert_own_ranges(&config);
}

fn overlapping(second: [(u32, u32); 4]) -> ResolvedGraphConfig {
    config(vec![
        vec![
            plot_line(dt(2025, 5, 16, 12, 0, 0), dt(2025, 5, 16, 12, 30, 0)),
            plot_line(dt(2025, 5, 16, 11, 0, 0), dt(2025, 5, 16, 13, 0, 0)),
        ],
        vec![
            plot_line(dt(2025, 5, 16, second[0].0, second[0].1, 0), dt(2025, 5, 16, second[1].0, second[1].1, 0)),
            plot_line(dt(2025, 5, 16, second[2].0, second[2].1, 0), dt(2025, 5, 16, second[3].0, second[3].1, 0)),
        ],
    ])
}

#[test]
fn two_lines_x_two_panels_align_best_fit_global_overlap() {
    let mut config = overlapping([(10, 0), (15, 0), (12, 10), (12, 20)]);
    config.panels[0].params.time_range_mode = Some(PanelRangeMode::BestFit);
    config.panels[1].params.time_range_mode = Some(PanelRangeMode::BestFit);
    resolve_panels_ranges_inner(&mut config, PanelAlignmentMode::SharedOverlap);
    assert_all(&config, dt(2025, 5, 16, 12, 10, 0), dt(2025, 5, 16, 12, 20, 0));
}

#[test]
fn two_lines_x_two_panels_align_full_global_overlap() {
    let mut config = overlapping([(10, 0), (15, 0), (12, 10), (12, 20)]);
    resolve_panels_ranges_inner(&mut config, PanelAlignmentMode::SharedOverlap);
    assert_all(&config, dt(2025, 5, 16, 11, 0, 0), dt(2025, 5, 16, 13, 0, 0));
}

#[test]
fn two_lines_x_two_panels_align_full_shared() {
    let mut config = overlapping([(20, 0), (21, 0), (20, 10), (20, 20)]);
    resolve_panels_ranges_inner(&mut config, PanelAlignmentMode::SharedFull);
    assert_all(&config, dt(2025, 5, 16, 11, 0, 0), dt(2025, 5, 16, 21, 0, 0));
}

#[test]
fn fixed_alignment_applies_everywhere() {
    let mut config = two_by_two();
    config.panels.push(ResolvedPanel::new_with_lines(vec![]));
    let (s, e) = (dt(2025, 1, 1, 0, 0, 0), dt(2025, 1, 2, 0, 0, 0));
    resolve_panels_ranges_inner(&mut config, PanelAlignmentMode::Fixed(s, e));
    assert_all(&config, s, e);
}

#[test]
fn shared_full_skips_panels_without_range() {
    let mut config = two_by_two();
    config.panels.push(ResolvedPanel::new_with_lines(vec![]));
    resolve_panels_ranges_inner(&mut config, PanelAlignmentMode::SharedFull);
    assert_eq!(config.panels[0].time_range, Some((dt(2025, 5, 16, 11, 0, 56), dt(2025, 5, 17, 13, 10, 0))));
    assert_eq!(config.panels[1].time_range, config.panels[0].time_range);
    assert_eq!(config.panels[2].time_range, None);
}

#[test]
fn populate_range_from_csv_file() {
    let first = "2025-04-22,20:17:00.194,1,1,0";
    let last = "2025-04-22,20:18:38.118,5,9,12";
    let range = csv_range_from_rows(Some(first), Some(last)).unwrap().unwrap();
    assert_eq!(range.1, dt_milli(2025, 4, 22, 20, 18, 38, 118));
    assert_eq!(range.0, dt_milli(2025, 4, 22, 20, 17, 0, 194));
}

#[test]
fn csv_range_edge_rows() {
    assert_eq!(csv_range_from_rows(None, None), Ok(None));
    let one = csv_range_from_rows(Some("2025-04-22,20:17:00.194,1,1,0"), None).unwrap().unwrap();
    assert_eq!(one.0, one.1);
    assert!(matches!(csv_range_from_rows(Some("no comma here"), None), Err(RangeError::Generic(_))));
    assert!(matches!(
        csv_range_from_rows(Some("2025-13-40,xx,1,1,0"), None),
        Err(RangeError::CsvDateParseError(_))
    ));
}

#[test]
fn global_range_over_all_lines() {
    let config = two_by_two();
    assert_eq!(
        config.global_time_range().unwrap(),
        (dt(2025, 5, 16, 11, 0, 56), dt(2025, 5, 17, 13, 10, 0))
    );
    let empty = config_without_ranges();
    assert_eq!(empty.global_time_range(), Err(RangeError::EmptyRangeError));
}

fn config_without_ranges() -> ResolvedGraphConfig {
    let line = ResolvedLine::from_explicit_name(
        Line::new_with_data_source(DataSource::new_event_count(None, "x".to_string())),
        "a.log".to_string(),
    );
    config(vec![vec![line]])
}
