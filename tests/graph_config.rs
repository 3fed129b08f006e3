use plox::align_ranges::PanelAlignmentMode;
use plox::gnuplot::{build_default_styles, Style};
use plox::graph_config::{
    Color, DashStyle, InputFilesContext, MarkerType, PanelAlignmentModeArg, PlotStyle,
    SharedGraphContext, SharedMatchPreviewContext, TimeRangeArg,
};
use plox::timestamp::{DateTime, TimeOfDay, TimestampFormat};

#[test]
fn gnuplot_spellings() {
    assert_eq!(MarkerType::Diamond.to_gnuplot(), "pt 12");
    assert_eq!(Color::DarkGreen.to_gnuplot(), "lc rgb \"dark-green\"");
    assert_eq!(PlotStyle::LinesPoints.to_gnuplot(), "with linespoints");
    assert_eq!(DashStyle::DashDot.to_gnuplot(), "dt 4");
    assert_eq!(Color::DarkYellow.to_plotly(), "gold");
    let style = Style { color: Color::Red, dash: DashStyle::Solid, marker: MarkerType::Dot };
    assert_eq!(style.line_style(3), "set linetype 3 lc rgb \"red\" dt 1 pt 7 lw 2.0 ps 4.0");
}

#[test]
fn default_styles_table() {
    let styles = build_default_styles();
    assert_eq!(styles.len(), 5 * 23);
    assert_eq!(styles[0], Style { color: Color::Red, dash: DashStyle::Solid, marker: MarkerType::Dot });
    assert_eq!(styles[11].marker, MarkerType::Dot);
    assert_eq!(styles[23].dash, DashStyle::Dashed);
    assert_eq!(styles[114].color, Color::DarkOrange);
}

#[test]
fn timestamp_format_classification() {
    assert!(matches!(TimestampFormat::from_format("%Y-%m-%d %H:%M:%S"), TimestampFormat::DateTime(_)));
    assert!(matches!(TimestampFormat::from_format("[%s]"), TimestampFormat::DateTime(_)));
    assert!(matches!(TimestampFormat::from_format("%I:%M:%S %p"), TimestampFormat::Time(_)));
    assert_eq!(TimestampFormat::from_format("%H:%M").as_str(), "%H:%M");
}

#[test]
fn input_context_defaults() {
    let ctx = InputFilesContext::new_with_input(vec!["a.log".to_string()]);
    assert_eq!(ctx.input(), &vec!["a.log".to_string()]);
    assert_eq!(ctx.cache_dir(), &None);
    assert!(!ctx.force_csv_regen());
    assert!(!ctx.ignore_invalid_timestamps());
    assert_eq!(ctx.timestamp_format().as_str(), "%Y-%m-%d %H:%M:%S%.3f");
    let preview = SharedMatchPreviewContext { input: "a.log".to_string(), count: 5, timestamp_format: None };
    assert_eq!(preview.timestamp_format().as_str(), "%Y-%m-%d %H:%M:%S%.3f");
}

#[test]
fn output_paths() {
    let mut ctx = SharedGraphContext::new_with_input(vec![]);
    assert_eq!(ctx.get_graph_output_path(&None), ("./graph.png".to_string(), "./graph.gnuplot".to_string()));
    ctx.inline_output = Some("plot.png".to_string());
    assert_eq!(
        ctx.get_graph_output_path(&Some("/logs".to_string())),
        ("/logs/plot.png".to_string(), "/logs/plot.gnuplot".to_string())
    );
    assert_eq!(ctx.get_cache_dir("/logs/a.log"), "/logs/.plox");
}

fn at(secs: u32) -> DateTime {
    DateTime { year: 2025, month: 1, day: 1, day_number: 739252, time: TimeOfDay { secs, nano: 0 } }
}

#[test]
fn time_range_parsing() {
    assert!(TimeRangeArg::parse_time_range("0.1").is_err());
    assert!(TimeRangeArg::parse_time_range("0.1,0.2,0.3").is_err());
    assert!(TimeRangeArg::parse_time_range("0.5,0.2").is_err());
    assert!(TimeRangeArg::parse_time_range("0.5,1.2").is_err());
    assert!(matches!(TimeRangeArg::parse_time_range(" 0.25 , 0.75 "), Ok(TimeRangeArg::Relative(_, _))));
    assert_eq!(
        TimeRangeArg::parse_time_range("10:00:00, 11:00:00"),
        Ok(TimeRangeArg::AbsoluteDateTime("10:00:00".to_string(), "11:00:00".to_string()))
    );
}

#[test]
fn relative_range_resolution() {
    let t = TimeRangeArg::parse_time_range("0.25,0.75").unwrap();
    let total = (at(0), at(1000));
    let (s, e) = t.resolve(total, &TimestampFormat::from_format("%H:%M:%S")).unwrap();
    assert_eq!(s.time.secs, 250);
    assert_eq!(e.time.secs, 750);
}

#[test]
fn absolute_time_only_range_lands_on_placeholder_day() {
    let t = TimeRangeArg::parse_time_range("10:00:00,11:00:00").unwrap();
    let (s, e) = t.resolve((at(0), at(1)), &TimestampFormat::from_format("%H:%M:%S")).unwrap();
    assert_eq!((s.year, s.month, s.day, s.day_number, s.time.secs), (2025, 1, 1, 739252, 36000));
    assert_eq!(s.date_to_text(), "2025-01-01");
    assert_eq!(e.time.secs, 39600);
}

#[test]
fn alignment_choice() {
    let mut ctx = SharedGraphContext::new_with_input(vec![]);
    assert_eq!(ctx.resolved_alignment_mode((at(0), at(10))), Ok(PanelAlignmentMode::PerPanel));
    ctx.panel_alignment_mode = Some(PanelAlignmentModeArg::SharedOverlap);
    assert_eq!(ctx.resolved_alignment_mode((at(0), at(10))), Ok(PanelAlignmentMode::SharedOverlap));
    ctx.time_range = Some(TimeRangeArg::parse_time_range("0,1").unwrap());
    assert_eq!(ctx.resolved_alignment_mode((at(0), at(10))), Ok(PanelAlignmentMode::Fixed(at(0), at(10))));
}

use plox::data_source::DataSource;
use plox::graph_config::OutputFilePaths;

#[test]
fn plotly_output_path() {
    let mut ctx = SharedGraphContext::new_with_input(vec![]);
    ctx.plotly_backend = true;
    assert_eq!(ctx.output_file_paths(&None), OutputFilePaths::Plotly("./graph3.html".to_string()));
    ctx.output = Some("out/report.png".to_string());
    assert_eq!(ctx.output_file_paths(&None), OutputFilePaths::Plotly("./out/report.html".to_string()));
    ctx.plotly_backend = false;
    assert_eq!(
        ctx.output_file_paths(&None),
        OutputFilePaths::Gnuplot("./out/report.png".to_string(), "./out/report.gnuplot".to_string())
    );
}

#[test]
fn merge_keeps_own_choices() {
    let mut a = SharedGraphContext::new_with_input(vec!["x.log".to_string()]);
    a.inline_output = Some("mine.png".to_string());
    let mut b = SharedGraphContext::new_with_input(vec![]);
    b.inline_output = Some("theirs.png".to_string());
    b.per_file_panels = Some(true);
    b.input_files.timestamp_format = Some(TimestampFormat::from_format("%H:%M"));
    a.merge_with_other(b);
    assert_eq!(a.inline_output, Some("mine.png".to_string()));
    assert_eq!(a.per_file_panels, Some(true));
    assert_eq!(a.input_files.timestamp_format.unwrap().as_str(), "%H:%M");
}

#[test]
fn field_names_are_escaped_into_the_template() {
    let ds = DataSource::new_plot_field(None, "a.b".to_string());
    assert_eq!(ds.regex_pattern(), r"\ba\.b=([\d\.]+)(\w+)?");
    let ds = DataSource::new_plot_field(None, r"v=(\d+)".to_string());
    assert_eq!(ds.regex_pattern(), r"v=(\d+)");
    assert_eq!(ds.title(), r"value of v=(\d+)");
}

#[test]
fn absolute_range_that_does_not_parse_is_an_error() {
    let t = TimeRangeArg::parse_time_range("10:00:00,nonsense").unwrap();
    assert!(t.resolve((at(0), at(1)), &TimestampFormat::from_format("%H:%M:%S")).is_err());
}

#[test]
fn relative_range_stays_inside_the_data() {
    let t = TimeRangeArg::parse_time_range("0,1").unwrap();
    let (s, e) = t.resolve((at(10), at(20)), &TimestampFormat::from_format("%H:%M:%S")).unwrap();
    assert_eq!((s.time.secs, e.time.secs), (10, 20));
}

#[test]
fn years_outside_four_digits_carry_a_sign() {
    let t = TimeOfDay { secs: 0, nano: 0 };
    let d = DateTime { year: -5, month: 1, day: 2, day_number: 0, time: t };
    assert_eq!(d.date_to_text(), "-0005-01-02");
    let d = DateTime { year: 12345, month: 11, day: 30, day_number: 0, time: t };
    assert_eq!(d.date_to_text(), "+12345-11-30");
}

#[test]
fn moving_out_of_a_leap_second() {
    let leap = DateTime {
        year: 2016, month: 12, day: 31, day_number: 736329,
        time: TimeOfDay { secs: 86399, nano: 1_300_000_000 },
    };
    let back = leap.plus_micros(-500_000).unwrap();
    assert_eq!((back.time.secs, back.time.nano), (86399, 800_000_000));
    let on = leap.plus_micros(800_000).unwrap();
    assert_eq!((on.day_number, on.time.secs, on.time.nano), (736330, 0, 100_000_000));
}
