use plox::cache_files::{propagate_shared_csv_files, SourceInfo};
use plox::data_source::DataSource;
use plox::decimal::Decimal;
use plox::resolved_graph_config::{Line, ResolvedGraphConfig, ResolvedLine, ResolvedPanel};
use std::collections::HashSet;

fn line(input: &str, ds: DataSource) -> ResolvedLine {
    ResolvedLine::from_explicit_name(Line::new_with_data_source(ds), input.to_string())
}

fn plot_line(input: &str, guard: &str, field: &str) -> ResolvedLine {
    line(input, DataSource::new_plot_field(Some(guard.to_string()), field.to_string()))
}

fn event_line(input: &str, guard: &str, pattern: &str, yvalue: i128) -> ResolvedLine {
    line(
        input,
        DataSource::new_event_value(
            Some(guard.to_string()),
            pattern.to_string(),
            Decimal { mantissa: yvalue, exponent: 0 },
        ),
    )
}

fn event_count_line(input: &str, guard: &str, pattern: &str) -> ResolvedLine {
    line(input, DataSource::new_event_count(Some(guard.to_string()), pattern.to_string()))
}

fn event_delta_line(input: &str, guard: &str, pattern: &str) -> ResolvedLine {
    line(input, DataSource::new_event_delta(Some(guard.to_string()), pattern.to_string()))
}

fn config(lines: Vec<ResolvedLine>) -> ResolvedGraphConfig {
    ResolvedGraphConfig { panels: vec![ResolvedPanel::new_with_lines(lines)] }
}

fn infos() -> Vec<SourceInfo> {
    ["input.log", "input1.log", "input2.log"]
        .iter()
        .map(|p| SourceInfo {
            path: p.to_string(),
            cache_dir: "/some/out/dir".to_string(),
            mtime_secs: None,
        })
        .collect()
}

fn all_lines(config: &ResolvedGraphConfig) -> Vec<&ResolvedLine> {
    config.panels.iter().flat_map(|p| p.lines.iter()).collect()
}

fn same_signal(a: &ResolvedLine, b: &ResolvedLine) -> bool {
    a.line.data_source.match_token() == b.line.data_source.match_token()
        && a.line.data_source.guard() == b.line.data_source.guard()
        && a.source_file_name() == b.source_file_name()
}

fn resolve_and_check(mut config: ResolvedGraphConfig, expected_len: usize, allow_shared: bool) {
    let output = propagate_shared_csv_files(&mut config, &infos()).unwrap();
    assert_eq!(output.len(), expected_len);
    for l in all_lines(&config) {
        assert!(l.shared_csv_filename().is_some());
    }
    for (name, canonical) in &output {
        assert_eq!(Some(name.clone()), canonical.shared_csv_filename());
        if !allow_shared {
            assert!(!canonical.line.data_source.can_be_shared(), "no shared lines allowed in output");
        }
    }
    let mut seen = HashSet::new();
    for (name, _) in &output {
        assert!(seen.insert(name.clone()), "duplicate file {}", name);
    }
    for l in all_lines(&config) {
        let file = l.shared_csv_filename().unwrap();
        let allowed: Vec<&String> = output
            .iter()
            .filter(|(_, c)| same_signal(l, c))
            .map(|(n, _)| n)
            .collect();
        assert!(allowed.contains(&&file));
        assert!(output.iter().any(|(n, _)| *n == file));
    }
}

#[test]
fn test_csv_resolution_00() {
    resolve_and_check(config(vec![plot_line("input.log", "guard", "duration")]), 1, false);
}

#[test]
fn test_csv_resolution_00a() {
    resolve_and_check(
        config(vec![
            plot_line("input.log", "guard", "duration"),
            event_count_line("input.log", "guard", "duration"),
        ]),
        1,
        false,
    );
}

#[test]
fn test_csv_resolution_00b() {
    resolve_and_check(
        config(vec![
            plot_line("input.log", "guard", "duration"),
            event_count_line("input.log", "guard", "duration"),
            event_delta_line("input.log", "guard", "duration"),
        ]),
        1,
        false,
    );
}

#[test]
fn test_csv_resolution_01() {
    resolve_and_check(
        config(vec![
            plot_line("input.log", "guard0", "duration"),
            plot_line("input.log", "guard1", "duration"),
        ]),
        2,
        false,
    );
}

#[test]
fn test_csv_resolution_03() {
    resolve_and_check(
        config(vec![
            plot_line("input.log", "guard0", "duration"),
            event_line("input.log", "guard1", "duration", 100),
        ]),
        2,
        false,
    );
}

#[test]
fn test_csv_resolution_04() {
    resolve_and_check(
        config(vec![
            plot_line("input.log", "guard0", "duration"),
            event_line("input.log", "guard1", "duration", 100),
            event_count_line("input.log", "guard1", "duration"),
        ]),
        2,
        false,
    );
}

#[test]
fn test_csv_resolution_05() {
    resolve_and_check(config(vec![event_count_line("input.log", "guard1", "duration")]), 1, true);
}

#[test]
fn test_csv_resolution_06() {
    resolve_and_check(
        config(vec![
            event_count_line("input.log", "guard1", "duration1"),
            event_delta_line("input.log", "guard1", "duration2"),
        ]),
        2,
        true,
    );
}

#[test]
fn test_csv_resolution_07() {
    resolve_and_check(
        config(vec![
            plot_line("input.log", "guard1", "duration"),
            event_line("input.log", "guard1", "duration", 100),
            event_count_line("input.log", "guard1", "duration"),
            event_delta_line("input.log", "guard1", "duration"),
            plot_line("input.log", "guard2", "duration"),
            event_line("input.log", "guard2", "duration", 100),
            event_count_line("input.log", "guard2", "duration"),
            event_delta_line("input.log", "guard2", "duration"),
        ]),
        4,
        false,
    );
}

#[test]
fn test_csv_resolution_08() {
    resolve_and_check(
        config(vec![
            plot_line("input1.log", "guard", "duration"),
            event_line("input1.log", "guard", "duration", 100),
            event_count_line("input1.log", "guard", "duration"),
            event_delta_line("input1.log", "guard", "duration"),
            plot_line("input2.log", "guard", "duration"),
            event_line("input2.log", "guard", "duration", 100),
            event_count_line("input2.log", "guard", "duration"),
            event_delta_line("input2.log", "guard", "duration"),
        ]),
        4,
        false,
    );
}

#[test]
fn test_csv_resolution_09() {
    resolve_and_check(
        config(vec![
            event_count_line("input1.log", "guard1", "duration"),
            event_delta_line("input1.log", "guard2", "duration"),
            event_count_line("input2.log", "guard1", "duration"),
            event_delta_line("input2.log", "guard2", "duration"),
        ]),
        4,
        true,
    );
}

#[test]
fn test_csv_resolution_10() {
    resolve_and_check(
        config(vec![
            plot_line("input.log", "guard", "duration"),
            plot_line("input.log", "guard", "duration"),
            plot_line("input.log", "guard", "duration"),
        ]),
        1,
        false,
    );
}

#[test]
fn test_csv_resolution_11() {
    resolve_and_check(
        config(vec![
            event_line("input.log", "guard", "duration", 1),
            event_line("input.log", "guard", "duration", 2),
            event_line("input.log", "guard", "duration", 3),
        ]),
        3,
        false,
    );
}

#[test]
fn test_csv_resolution_12() {
    resolve_and_check(
        config(vec![
            event_count_line("input.log", "guard", "duration"),
            event_count_line("input.log", "guard", "duration"),
            event_count_line("input.log", "guard", "duration"),
        ]),
        1,
        true,
    );
}

#[test]
fn count_and_delta_share_the_canonical_count_file() {
    let mut c = config(vec![
        event_count_line("input.log", "guard", "duration"),
        event_delta_line("input.log", "guard", "duration"),
    ]);
    let output = propagate_shared_csv_files(&mut c, &infos()).unwrap();
    assert_eq!(output.len(), 1);
    assert_eq!(output[0].0, "/some/out/dir/input.log_nots__guard__count_duration.csv");
    let lines = all_lines(&c);
    assert_eq!(lines[0].shared_csv_filename(), lines[1].shared_csv_filename());
}

#[test]
fn file_name_scheme() {
    let l = event_line("/var/log/app.log", "g", "ERROR", 5);
    assert_eq!(l.get_csv_filename(Some(1700000000)), "app.log_1700000000__g__event_ERROR_5.csv");
    let p = line("x.log", DataSource::new_plot_field(None, "duration".to_string()));
    assert_eq!(p.get_csv_filename(None), "x.log_nots__field_%5Cbduration%3D%28%5B%5Cd%5C.%5D%2B%29%28%5Cw%2B%29%3F.csv");
}

#[test]
fn missing_input_info_is_an_error() {
    let mut c = config(vec![plot_line("unknown.log", "g", "f")]);
    assert!(propagate_shared_csv_files(&mut c, &infos()).is_err());
    assert!(c.panels[0].lines[0].shared_csv_filename().is_none());
}
