use plox::resolved_graph_config::{LineSource, ResolvedSource};

#[test]
fn test_resolved_source_match_input() {
    let a = "a".to_string();
    let b = "b".to_string();
    let c = "c".to_string();
    let x = "x".to_string();

    let line_source_id = LineSource::FileId(3);
    let line_source_fn = LineSource::FileName(x.clone());
    let line_source_all = LineSource::AllInputFiles;

    assert_eq!(
        ResolvedSource::try_match_input(line_source_id.clone(), 3, &c).unwrap().file_name(),
        &c
    );
    assert_eq!(ResolvedSource::try_match_input(line_source_id.clone(), 2, &c).is_none(), true);

    assert_eq!(ResolvedSource::try_match_input(line_source_fn.clone(), 2, &c).is_none(), true);
    assert_eq!(ResolvedSource::try_from_explicit(line_source_fn.clone()).unwrap().file_name(), &x);

    assert_eq!(
        ResolvedSource::try_match_input(line_source_all.clone(), 1, &a).unwrap().file_name(),
        &a
    );
    assert_eq!(
        ResolvedSource::try_match_input(line_source_all.clone(), 2, &b).unwrap().file_name(),
        &b
    );
    assert_eq!(
        ResolvedSource::try_match_input(line_source_all.clone(), 3, &c).unwrap().file_name(),
        &c
    );
}

use plox::data_source::DataSource;
use plox::resolved_graph_config::{
    expand_graph_config, ExpandError, GraphConfig, Line, LineParams, Panel, PanelParams,
};

fn params() -> PanelParams {
    PanelParams { panel_title: None, time_range_mode: None }
}

#[test]
fn test_expand_graph_config_minimal() {
    let config = GraphConfig {
        panels: vec![Panel {
            params: params(),
            lines: vec![
                Line::new_with_data_source(DataSource::new_plot_field(None, "duration".to_string())),
                Line::new_with_data_source(DataSource::new_event_count(None, "ERROR".to_string())),
            ],
        }],
    };
    let input = vec!["log1.txt".to_string(), "log2.txt".to_string()];
    let resolved = expand_graph_config(&config, &input, false).unwrap();
    assert_eq!(resolved.panels.len(), 1);
    assert_eq!(resolved.panels[0].lines.len(), 4);
    assert_eq!(resolved.panels[0].lines[0].source.file_name(), "log1.txt");
    assert_eq!(resolved.panels[0].lines[1].source.file_name(), "log2.txt");
    assert_eq!(resolved.panels[0].lines[2].source.file_name(), "log1.txt");
    assert_eq!(resolved.panels[0].lines[3].source.file_name(), "log2.txt");
}

fn line_with(file_name: Option<&str>, file_id: Option<usize>) -> Line {
    let mut l = Line::new_with_data_source(DataSource::new_plot_field(None, "x".to_string()));
    l.params = LineParams { title: None, file_name: file_name.map(|s| s.to_string()), file_id };
    l
}

#[test]
fn per_file_panels_split_panels_with_all_inputs_lines() {
    let config = GraphConfig {
        panels: vec![
            Panel { params: params(), lines: vec![line_with(None, None), line_with(Some("fixed.log"), None)] },
            Panel { params: params(), lines: vec![line_with(None, Some(1))] },
        ],
    };
    let input = vec!["a.log".to_string(), "b.log".to_string(), "c.log".to_string()];
    let resolved = expand_graph_config(&config, &input, true).unwrap();
    assert_eq!(resolved.panels.len(), 4);
    for (i, name) in ["a.log", "b.log", "c.log"].iter().enumerate() {
        let p = &resolved.panels[i];
        assert_eq!(p.input_file_name.as_deref(), Some(*name));
        assert_eq!(p.lines.len(), 2);
        assert_eq!(p.lines[0].source.file_name(), "fixed.log");
        assert_eq!(p.lines[1].source.file_name(), *name);
    }
    assert_eq!(resolved.panels[3].lines[0].source.file_name(), "b.log");
    assert_eq!(resolved.panels[3].input_file_name, None);
}

#[test]
fn per_file_panels_refuse_bad_file_index() {
    let config = GraphConfig { panels: vec![Panel { params: params(), lines: vec![line_with(None, Some(5))] }] };
    let input = vec!["a.log".to_string()];
    assert_eq!(expand_graph_config(&config, &input, true).err(), Some(ExpandError::InvalidFileId(5)));
    let shared = expand_graph_config(&config, &input, false).unwrap();
    assert_eq!(shared.panels[0].lines.len(), 0);
}

use plox::resolved_graph_config::{ResolvedGraphConfig, ResolvedLine, ResolvedPanel};

#[test]
fn populated_inputs_and_titles() {
    let line = line_with(None, None);
    let f = "/logs/app.log".to_string();
    let r = ResolvedLine::try_from_populated_inputs(line.clone(), Some((2, &f))).unwrap();
    assert_eq!(r.source, ResolvedSource::PopulatedInput { index: 2, path: f.clone() });
    assert!(ResolvedLine::try_from_populated_inputs(line.clone(), None).is_none());
    assert_eq!(r.title(true), "value of x (app)");
    assert_eq!(r.title(false), "value of x");

    let mut panel = ResolvedPanel::new_with_lines(vec![r.clone()]);
    panel.params.panel_title = Some("Latency".to_string());
    panel.input_file_name = Some(f.clone());
    assert_eq!(panel.title(), vec!["Latency".to_string(), "[app]".to_string()]);
    assert!(panel.is_empty());

    let config = ResolvedGraphConfig { panels: vec![panel.clone(), panel] };
    assert_eq!(config.all_lines().len(), 2);
}

fn named(name: &str, file_name: Option<&str>, file_id: Option<usize>) -> Line {
    let mut l = Line::new_with_data_source(DataSource::new_plot_field(None, name.to_string()));
    l.params = LineParams { title: None, file_name: file_name.map(|s| s.to_string()), file_id };
    l
}

fn layout(panels: Vec<Vec<Line>>) -> GraphConfig {
    GraphConfig {
        panels: panels.into_iter().map(|lines| Panel { lines, params: params() }).collect(),
    }
}

fn inputs(names: &[&str]) -> Vec<String> {
    names.iter().map(|s| s.to_string()).collect()
}

fn check_lines(resolved: &ResolvedGraphConfig, files: Vec<Vec<&str>>, names: Vec<Vec<&str>>) {
    assert_eq!(resolved.panels.len(), files.len());
    for (p, (files, names)) in files.iter().zip(names.iter()).enumerate() {
        let lines = &resolved.panels[p].lines;
        assert_eq!(lines.len(), files.len());
        for (i, (f, n)) in files.iter().zip(names.iter()).enumerate() {
            assert_eq!(lines[i].source.file_name(), f);
            assert_eq!(lines[i].line.data_source.match_token(), *n);
        }
    }
}

#[test]
fn test_populate_to_panel_01() {
    let config = layout(vec![vec![named("x", None, Some(0)), named("y", None, Some(1))]]);
    let resolved = expand_graph_config(&config, &inputs(&["A", "B"]), false).unwrap();
    check_lines(&resolved, vec![vec!["A", "B"]], vec![vec!["x", "y"]]);
}

#[test]
fn test_populate_to_panel_02() {
    let config = layout(vec![vec![named("x", None, None), named("y", None, None)]]);
    let resolved = expand_graph_config(&config, &inputs(&["A", "B", "C"]), false).unwrap();
    check_lines(&resolved, vec![vec!["A", "B", "C", "A", "B", "C"]], vec![vec!["x", "x", "x", "y", "y", "y"]]);
}

#[test]
fn test_populate_to_panel_03() {
    let config = layout(vec![vec![named("x", None, None), named("y", None, Some(1))]]);
    let resolved = expand_graph_config(&config, &inputs(&["A", "B", "C"]), false).unwrap();
    check_lines(&resolved, vec![vec!["A", "B", "C", "B"]], vec![vec!["x", "x", "x", "y"]]);
}

#[test]
fn test_populate_to_panel_04() {
    let config = layout(vec![vec![named("x", None, Some(1)), named("y", None, None)]]);
    let resolved = expand_graph_config(&config, &inputs(&["A", "B", "C"]), false).unwrap();
    check_lines(&resolved, vec![vec!["B", "A", "B", "C"]], vec![vec!["x", "y", "y", "y"]]);
}

#[test]
fn test_populate_to_panel_05() {
    let config = layout(vec![vec![named("x", Some("E"), None), named("y", None, None)]]);
    let resolved = expand_graph_config(&config, &inputs(&["A", "B", "C"]), false).unwrap();
    check_lines(&resolved, vec![vec!["E", "A", "B", "C"]], vec![vec!["x", "y", "y", "y"]]);
}

#[test]
fn test_populate_to_panel_06() {
    let config = layout(vec![
        vec![named("x", Some("D"), None), named("y", None, None)],
        vec![named("u", Some("E"), None), named("t", None, None)],
    ]);
    let resolved = expand_graph_config(&config, &inputs(&["A", "B", "C"]), false).unwrap();
    check_lines(
        &resolved,
        vec![vec!["D", "A", "B", "C"], vec!["E", "A", "B", "C"]],
        vec![vec!["x", "y", "y", "y"], vec!["u", "t", "t", "t"]],
    );
}

#[test]
fn test_populate_to_panel_07() {
    let config = layout(vec![
        vec![named("x", Some("D"), None), named("y", None, Some(1)), named("z", None, None)],
        vec![named("u", Some("E"), None), named("t", None, None)],
    ]);
    let resolved = expand_graph_config(&config, &inputs(&["A", "B", "C"]), false).unwrap();
    check_lines(
        &resolved,
        vec![vec!["D", "B", "A", "B", "C"], vec!["E", "A", "B", "C"]],
        vec![vec!["x", "y", "z", "z", "z"], vec!["u", "t", "t", "t"]],
    );
}

#[test]
fn test_populate_to_multiple_panels_01() {
    let config = layout(vec![vec![named("z", None, None)]]);
    let resolved = expand_graph_config(&config, &inputs(&["A", "B", "C"]), true).unwrap();
    check_lines(&resolved, vec![vec!["A"], vec!["B"], vec!["C"]], vec![vec!["z"], vec!["z"], vec!["z"]]);
}

#[test]
fn test_populate_to_multiple_panels_02() {
    let config = layout(vec![vec![named("x", None, None), named("y", None, None)]]);
    let resolved = expand_graph_config(&config, &inputs(&["A", "B", "C"]), true).unwrap();
    check_lines(
        &resolved,
        vec![vec!["A", "A"], vec!["B", "B"], vec!["C", "C"]],
        vec![vec!["x", "y"], vec!["x", "y"], vec!["x", "y"]],
    );
}

#[test]
fn test_populate_to_multiple_panels_03() {
    let config = layout(vec![vec![named("z", None, None)], vec![named("x", None, None)]]);
    let resolved = expand_graph_config(&config, &inputs(&["A", "B", "C"]), true).unwrap();
    check_lines(
        &resolved,
        vec![vec!["A"], vec!["B"], vec!["C"], vec!["A"], vec!["B"], vec!["C"]],
        vec![vec!["z"], vec!["z"], vec!["z"], vec!["x"], vec!["x"], vec!["x"]],
    );
}

#[test]
fn test_populate_to_multiple_panels_04() {
    let config = layout(vec![
        vec![named("z", None, None)],
        vec![named("x", None, None), named("y", None, Some(1))],
    ]);
    let resolved = expand_graph_config(&config, &inputs(&["A", "B", "C"]), true).unwrap();
    check_lines(
        &resolved,
        vec![vec!["A"], vec!["B"], vec!["C"], vec!["B", "A"], vec!["B", "B"], vec!["B", "C"]],
        vec![vec!["z"], vec!["z"], vec!["z"], vec!["y", "x"], vec!["y", "x"], vec!["y", "x"]],
    );
}

#[test]
fn test_populate_to_multiple_panels_05() {
    let config = layout(vec![
        vec![named("z", None, None)],
        vec![named("x", None, None), named("y", Some("D"), None)],
    ]);
    let resolved = expand_graph_config(&config, &inputs(&["A", "B", "C"]), true).unwrap();
    check_lines(
        &resolved,
        vec![vec!["A"], vec!["B"], vec!["C"], vec!["D", "A"], vec!["D", "B"], vec!["D", "C"]],
        vec![vec!["z"], vec!["z"], vec!["z"], vec!["y", "x"], vec!["y", "x"], vec!["y", "x"]],
    );
}
