//! Time windows: per line from its cache file, per panel under its range mode, and across
//! panels under an alignment mode.

use crate::resolved_graph_config::{PanelRangeMode, ResolvedGraphConfig, ResolvedLine, ResolvedPanel};
use crate::text::{find_char, first_index_of, push_str, substring, trim, trimmed};
use crate::timestamp::{datetime_leading, parse_datetime_leading, DateTime};
use vstd::prelude::*;

verus! {

pub type Range = (DateTime, DateTime);

/// How panels' windows are reconciled.
#[derive(Clone, Copy, Debug, PartialEq, Eq, Structural)]
pub enum PanelAlignmentMode {
    /// One window over all panels, from the earliest start to the latest end.
    SharedFull,
    /// Every panel keeps its own window.
    PerPanel,
    /// The window common to all panels, when there is one.
    SharedOverlap,
    /// A given window for every panel.
    Fixed(DateTime, DateTime),
}

#[derive(Clone, Debug, PartialEq, Eq)]
pub enum RangeError {
    /// A cache file row that the line processor could not have written.
    Generic(String),
    /// A cache file date or time that does not parse.
    CsvDateParseError(String),
    /// No line has any data.
    EmptyRangeError,
}

pub open spec fn range_wf(r: Option<Range>) -> bool {
    r matches Some(p) ==> p.0.wf() && p.1.wf()
}

pub open spec fn ranges_wf(rs: Seq<Option<Range>>) -> bool {
    forall|i: int| 0 <= i < rs.len() ==> range_wf(#[trigger] rs[i])
}

/// The earliest (or, with `want_max`, latest) start (or, with `use_end`, end) among the
/// present windows; the first of equal minima and the last of equal maxima.
pub open spec fn pick(rs: Seq<Option<Range>>, use_end: bool, want_max: bool) -> Option<DateTime>
    decreases rs.len(),
{
    if rs.len() == 0 {
        None
    } else {
        let prev = pick(rs.drop_last(), use_end, want_max);
        match rs.last() {
            None => prev,
            Some(r) => {
                let v = if use_end {
                    r.1
                } else {
                    r.0
                };
                match prev {
                    None => Some(v),
                    Some(p) => if want_max {
                        if v.instant() >= p.instant() {
                            Some(v)
                        } else {
                            Some(p)
                        }
                    } else {
                        if v.instant() < p.instant() {
                            Some(v)
                        } else {
                            Some(p)
                        }
                    },
                }
            },
        }
    }
}

pub open spec fn min_start(rs: Seq<Option<Range>>) -> Option<DateTime> {
    pick(rs, false, false)
}

pub open spec fn max_end(rs: Seq<Option<Range>>) -> Option<DateTime> {
    pick(rs, true, true)
}

pub open spec fn max_start(rs: Seq<Option<Range>>) -> Option<DateTime> {
    pick(rs, false, true)
}

pub open spec fn min_end(rs: Seq<Option<Range>>) -> Option<DateTime> {
    pick(rs, true, false)
}

/// `(min of starts, max of ends)` over the present windows.
pub open spec fn full_range(rs: Seq<Option<Range>>) -> Option<Range> {
    match (min_start(rs), max_end(rs)) {
        (Some(s), Some(e)) => Some((s, e)),
        _ => None,
    }
}

/// A panel's window under `mode`: `Full` spans all windows; `BestFit` is their intersection
/// when it has `start < end`, and falls back to `Full` otherwise.
pub open spec fn panel_range(rs: Seq<Option<Range>>, mode: PanelRangeMode) -> Option<Range> {
    match full_range(rs) {
        None => None,
        Some(full) => match mode {
            PanelRangeMode::Full => Some(full),
            PanelRangeMode::BestFit => match (max_start(rs), min_end(rs)) {
                (Some(s), Some(e)) => if s.instant() < e.instant() {
                    Some((s, e))
                } else {
                    Some(full)
                },
                _ => Some(full),
            },
        },
    }
}

pub open spec fn line_ranges(lines: Seq<ResolvedLine>) -> Seq<Option<Range>> {
    lines.map_values(|l: ResolvedLine| l.time_range)
}

pub open spec fn panel_ranges(panels: Seq<ResolvedPanel>) -> Seq<Option<Range>> {
    panels.map_values(|p: ResolvedPanel| p.time_range)
}

pub open spec fn mode_of(p: ResolvedPanel) -> PanelRangeMode {
    match p.params.time_range_mode {
        Some(m) => m,
        None => PanelRangeMode::Full,
    }
}

/// The panel's window after resolution: computed from its lines, or kept when no line has one.
pub open spec fn resolved_panel_range(p: ResolvedPanel) -> Option<Range> {
    match panel_range(line_ranges(p.lines@), mode_of(p)) {
        Some(r) => Some(r),
        None => p.time_range,
    }
}

pub open spec fn panel_wf(p: ResolvedPanel) -> bool {
    range_wf(p.time_range) && ranges_wf(line_ranges(p.lines@))
}

proof fn lemma_pick_wf(rs: Seq<Option<Range>>, use_end: bool, want_max: bool)
    requires
        ranges_wf(rs),
    ensures
        pick(rs, use_end, want_max) matches Some(d) ==> d.wf(),
    decreases rs.len(),
{
    if rs.len() > 0 {
        let t = rs.drop_last();
        assert forall|i: int| 0 <= i < t.len() implies range_wf(#[trigger] t[i]) by {
            assert(t[i] == rs[i]);
        }
        lemma_pick_wf(t, use_end, want_max);
        assert(range_wf(rs[rs.len() - 1]));
    }
}

/// One step of `pick`: folds in the window `r`.
fn pick_step(prev: Option<DateTime>, r: &Option<Range>, use_end: bool, want_max: bool) -> (res:
    Option<DateTime>)
    requires
        prev matches Some(p) ==> p.wf(),
        range_wf(*r),
    ensures
        res == (match *r {
            None => prev,
            Some(x) => {
                let v = if use_end {
                    x.1
                } else {
                    x.0
                };
                match prev {
                    None => Some(v),
                    Some(p) => if want_max {
                        if v.instant() >= p.instant() {
                            Some(v)
                        } else {
                            Some(p)
                        }
                    } else {
                        if v.instant() < p.instant() {
                            Some(v)
                        } else {
                            Some(p)
                        }
                    },
                }
            },
        }),
{
    match r {
        None => prev,
        Some(x) => {
            let v = if use_end {
                x.1
            } else {
                x.0
            };
            match prev {
                None => Some(v),
                Some(p) => {
                    if want_max {
                        if p.le(&v) {
                            Some(v)
                        } else {
                            Some(p)
                        }
                    } else {
                        if v.lt(&p) {
                            Some(v)
                        } else {
                            Some(p)
                        }
                    }
                },
            }
        },
    }
}

/// `(min start, max end, max start, min end)` over the present windows of `lines`.
fn line_extremes(lines: &Vec<ResolvedLine>) -> (r: (
    Option<DateTime>,
    Option<DateTime>,
    Option<DateTime>,
    Option<DateTime>,
))
    requires
        ranges_wf(line_ranges(lines@)),
    ensures
        r.0 == min_start(line_ranges(lines@)),
        r.1 == max_end(line_ranges(lines@)),
        r.2 == max_start(line_ranges(lines@)),
        r.3 == min_end(line_ranges(lines@)),
{
    let ghost rs = line_ranges(lines@);
    let mut a: Option<DateTime> = None;
    let mut b: Option<DateTime> = None;
    let mut c: Option<DateTime> = None;
    let mut d: Option<DateTime> = None;
    let mut i: usize = 0;
    while i < lines.len()
        invariant
            i <= lines@.len(),
            rs == line_ranges(lines@),
            ranges_wf(rs),
            a == min_start(rs.subrange(0, i as int)),
            b == max_end(rs.subrange(0, i as int)),
            c == max_start(rs.subrange(0, i as int)),
            d == min_end(rs.subrange(0, i as int)),
        decreases lines@.len() - i,
    {
        let ghost pre = rs.subrange(0, i as int);
        let ghost next = rs.subrange(0, i + 1);
        assert(next.drop_last() =~= pre);
        assert(ranges_wf(pre)) by {
            assert forall|k: int| 0 <= k < pre.len() implies range_wf(#[trigger] pre[k]) by {
                assert(pre[k] == rs[k]);
            }
        }
        proof {
            lemma_pick_wf(pre, false, false);
            lemma_pick_wf(pre, true, true);
            lemma_pick_wf(pre, false, true);
            lemma_pick_wf(pre, true, false);
        }
        let r = lines[i].time_range();
        assert(*r == rs[i as int]);
        assert(range_wf(rs[i as int]));
        a = pick_step(a, r, false, false);
        b = pick_step(b, r, true, true);
        c = pick_step(c, r, false, true);
        d = pick_step(d, r, true, false);
        i = i + 1;
    }
    assert(rs.subrange(0, i as int) =~= rs);
    (a, b, c, d)
}

impl ResolvedPanel {
    /// Sets the panel's window from its lines' windows under its range mode (`Full` unless set);
    /// a panel whose lines have no window keeps the one it had.
    pub fn resolve_time_range(&mut self)
        requires
            panel_wf(*old(self)),
        ensures
            final(self).time_range == resolved_panel_range(*old(self)),
            final(self).lines == old(self).lines,
            final(self).params == old(self).params,
            final(self).input_file_name == old(self).input_file_name,
            panel_wf(*final(self)),
    {
        let (min, max, best_start, best_end) = line_extremes(&self.lines);
        let ghost rs = line_ranges(self.lines@);
        proof {
            lemma_pick_wf(rs, false, false);
            lemma_pick_wf(rs, true, true);
            lemma_pick_wf(rs, false, true);
            lemma_pick_wf(rs, true, false);
        }
        match (min, max) {
            (Some(min), Some(max)) => {
                let mode = match self.params.time_range_mode {
                    Some(m) => m,
                    None => PanelRangeMode::Full,
                };
                match mode {
                    PanelRangeMode::Full => self.set_time_range(min, max),
                    PanelRangeMode::BestFit => {
                        match (best_start, best_end) {
                            (Some(s), Some(e)) => {
                                if s.lt(&e) {
                                    self.set_time_range(s, e);
                                } else {
                                    self.set_time_range(min, max);
                                }
                            },
                            _ => self.set_time_range(min, max),
                        }
                    },
                }
            },
            _ => {},
        }
    }
}

/// The window every panel ends with under `mode`, given the panels' own windows `rs`.
pub open spec fn aligned_range(rs: Seq<Option<Range>>, i: int, mode: PanelAlignmentMode) -> Option<
    Range,
> {
    match mode {
        PanelAlignmentMode::PerPanel => rs[i],
        PanelAlignmentMode::SharedFull => match full_range(rs) {
            Some(g) => if rs[i] is Some {
                Some(g)
            } else {
                rs[i]
            },
            None => rs[i],
        },
        PanelAlignmentMode::SharedOverlap => match (max_start(rs), min_end(rs)) {
            (Some(s), Some(e)) => if s.instant() < e.instant() {
                Some((s, e))
            } else {
                rs[i]
            },
            _ => rs[i],
        },
        PanelAlignmentMode::Fixed(s, e) => Some((s, e)),
    }
}

pub open spec fn config_wf(c: ResolvedGraphConfig) -> bool {
    forall|i: int| 0 <= i < c.panels@.len() ==> panel_wf(#[trigger] c.panels@[i])
}

pub open spec fn mode_wf(mode: PanelAlignmentMode) -> bool {
    mode matches PanelAlignmentMode::Fixed(s, e) ==> s.wf() && e.wf()
}

/// Resolves every panel's window from its lines, then reconciles the panels under `mode`:
/// `PerPanel` keeps them; `SharedFull` gives every panel that has a window the span of all;
/// `SharedOverlap` gives every panel the common part of all windows when it is not empty and
/// changes nothing otherwise; `Fixed` gives every panel the given window.
pub fn resolve_panels_ranges_inner(config: &mut ResolvedGraphConfig, align_mode: PanelAlignmentMode)
    requires
        config_wf(*old(config)),
        mode_wf(align_mode),
    ensures
        final(config).panels@.len() == old(config).panels@.len(),
        forall|i: int|
            0 <= i < final(config).panels@.len() ==> (#[trigger] final(config).panels@[i]).lines
                == old(config).panels@[i].lines && final(config).panels@[i].params == old(
                config,
            ).panels@[i].params,
        forall|i: int|
            0 <= i < final(config).panels@.len() ==> (#[trigger] final(config).panels@[i]).time_range
                == aligned_range(
                old(config).panels@.map_values(|p: ResolvedPanel| resolved_panel_range(p)),
                i,
                align_mode,
            ),
{
    let ghost old_panels = config.panels@;
    let ghost rs = old_panels.map_values(|p: ResolvedPanel| resolved_panel_range(p));
    let n = config.panels.len();
    let mut i: usize = 0;
    while i < n
        invariant
            n == config.panels@.len(),
            n == old_panels.len(),
            i <= n,
            rs == old_panels.map_values(|p: ResolvedPanel| resolved_panel_range(p)),
            forall|k: int|
                0 <= k < n ==> (#[trigger] config.panels@[k]).lines == old_panels[k].lines
                    && config.panels@[k].params == old_panels[k].params && panel_wf(
                    config.panels@[k],
                ),
            forall|k: int| 0 <= k < i ==> (#[trigger] config.panels@[k]).time_range == rs[k],
            forall|k: int| i <= k < n ==> (#[trigger] config.panels@[k]) == old_panels[k],
            config_wf(*old(config)),
            old_panels == old(config).panels@,
        decreases n - i,
    {
        assert(config.panels@[i as int] == old_panels[i as int]);
        config.panels[i].resolve_time_range();
        i = i + 1;
    }
    assert(panel_ranges(config.panels@) =~= rs);
    assert(ranges_wf(rs)) by {
        assert forall|k: int| 0 <= k < rs.len() implies range_wf(#[trigger] rs[k]) by {
            assert(panel_wf(config.panels@[k]));
        }
    }
    match align_mode {
        PanelAlignmentMode::PerPanel => {},
        PanelAlignmentMode::SharedFull => {
            let (start, end) = panel_extremes(&config.panels, true);
            match (start, end) {
                (Some(s), Some(e)) => {
                    set_all_ranges(config, s, e, true);
                },
                _ => {},
            }
        },
        PanelAlignmentMode::SharedOverlap => {
            let (start, end) = panel_extremes(&config.panels, false);
            match (start, end) {
                (Some(s), Some(e)) => {
                    if s.lt(&e) {
                        set_all_ranges(config, s, e, false);
                    }
                },
                _ => {},
            }
        },
        PanelAlignmentMode::Fixed(s, e) => {
            set_all_ranges(config, s, e, false);
        },
    }
}

/// `(min start, max end)` when `full`, else `(max start, min end)`, over the panels' windows.
fn panel_extremes(panels: &Vec<ResolvedPanel>, full: bool) -> (r: (Option<DateTime>, Option<DateTime>))
    requires
        ranges_wf(panel_ranges(panels@)),
    ensures
        full ==> r.0 == min_start(panel_ranges(panels@)) && r.1 == max_end(panel_ranges(panels@)),
        !full ==> r.0 == max_start(panel_ranges(panels@)) && r.1 == min_end(panel_ranges(panels@)),
        r.0 matches Some(d) ==> d.wf(),
        r.1 matches Some(d) ==> d.wf(),
{
    let ghost rs = panel_ranges(panels@);
    let mut a: Option<DateTime> = None;
    let mut b: Option<DateTime> = None;
    let mut i: usize = 0;
    while i < panels.len()
        invariant
            i <= panels@.len(),
            rs == panel_ranges(panels@),
            ranges_wf(rs),
            a == pick(rs.subrange(0, i as int), false, !full),
            b == pick(rs.subrange(0, i as int), true, full),
        decreases panels@.len() - i,
    {
        let ghost pre = rs.subrange(0, i as int);
        assert(rs.subrange(0, i + 1).drop_last() =~= pre);
        assert(ranges_wf(pre)) by {
            assert forall|k: int| 0 <= k < pre.len() implies range_wf(#[trigger] pre[k]) by {
                assert(pre[k] == rs[k]);
            }
        }
        proof {
            lemma_pick_wf(pre, false, !full);
            lemma_pick_wf(pre, true, full);
        }
        let r = panels[i].time_range();
        assert(*r == rs[i as int]);
        assert(range_wf(rs[i as int]));
        a = pick_step(a, r, false, !full);
        b = pick_step(b, r, true, full);
        i = i + 1;
    }
    assert(rs.subrange(0, i as int) =~= rs);
    proof {
        lemma_pick_wf(rs, false, !full);
        lemma_pick_wf(rs, true, full);
    }
    (a, b)
}

/// Gives every panel (with `only_with_range`, every panel that has a window) the window
/// `(s, e)`.
fn set_all_ranges(config: &mut ResolvedGraphConfig, s: DateTime, e: DateTime, only_with_range: bool)
    requires
        s.wf(),
        e.wf(),
        config_wf(*old(config)),
    ensures
        final(config).panels@.len() == old(config).panels@.len(),
        config_wf(*final(config)),
        forall|i: int|
            0 <= i < final(config).panels@.len() ==> {
                &&& (#[trigger] final(config).panels@[i]).lines == old(config).panels@[i].lines
                &&& final(config).panels@[i].params == old(config).panels@[i].params
                &&& final(config).panels@[i].time_range == (if !only_with_range
                    || old(config).panels@[i].time_range is Some {
                    Some((s, e))
                } else {
                    old(config).panels@[i].time_range
                })
            },
{
    let ghost old_panels = config.panels@;
    let n = config.panels.len();
    let mut i: usize = 0;
    while i < n
        invariant
            n == config.panels@.len(),
            n == old_panels.len(),
            old_panels == old(config).panels@,
            s.wf(),
            e.wf(),
            i <= n,
            forall|k: int| 0 <= k < n ==> panel_wf(#[trigger] config.panels@[k]),
            forall|k: int|
                0 <= k < n ==> (#[trigger] config.panels@[k]).lines == old_panels[k].lines
                    && config.panels@[k].params == old_panels[k].params,
            forall|k: int|
                0 <= k < i ==> (#[trigger] config.panels@[k]).time_range == (if !only_with_range
                    || old_panels[k].time_range is Some {
                    Some((s, e))
                } else {
                    old_panels[k].time_range
                }),
            forall|k: int| i <= k < n ==> (#[trigger] config.panels@[k]) == old_panels[k],
        decreases n - i,
    {
        if !only_with_range || config.panels[i].time_range().is_some() {
            config.panels[i].set_time_range(s, e);
        }
        i = i + 1;
    }
}

/// Where the panels' windows have no common part, `SharedOverlap` leaves each of them as it is.
pub proof fn lemma_shared_overlap_without_overlap_keeps_ranges(rs: Seq<Option<Range>>, i: int)
    requires
        0 <= i < rs.len(),
        match (max_start(rs), min_end(rs)) {
            (Some(s), Some(e)) => s.instant() >= e.instant(),
            _ => true,
        },
    ensures
        aligned_range(rs, i, PanelAlignmentMode::SharedOverlap) == rs[i],
{
}

/// Windows of every line of every panel, panel by panel.
pub open spec fn all_line_ranges(panels: Seq<ResolvedPanel>) -> Seq<Option<Range>>
    decreases panels.len(),
{
    if panels.len() == 0 {
        Seq::empty()
    } else {
        all_line_ranges(panels.drop_last()) + line_ranges(panels.last().lines@)
    }
}

impl ResolvedGraphConfig {
    /// `(earliest start, latest end)` over the windows of all lines; an error when no line has
    /// a window (no data at all).
    pub fn global_time_range(&self) -> (r: Result<Range, RangeError>)
        requires
            config_wf(*self),
        ensures
            r matches Ok(g) ==> full_range(all_line_ranges(self.panels@)) == Some(g),
            r is Err ==> full_range(all_line_ranges(self.panels@)) is None && r == Err::<
                Range,
                RangeError,
            >(RangeError::EmptyRangeError),
    {
        let ghost ps = self.panels@;
        let mut a: Option<DateTime> = None;
        let mut b: Option<DateTime> = None;
        let mut i: usize = 0;
        assert(all_line_ranges(ps.subrange(0, 0)) =~= Seq::<Option<Range>>::empty());
        while i < self.panels.len()
            invariant
                ps == self.panels@,
                config_wf(*self),
                i <= ps.len(),
                ranges_wf(all_line_ranges(ps.subrange(0, i as int))),
                a == min_start(all_line_ranges(ps.subrange(0, i as int))),
                b == max_end(all_line_ranges(ps.subrange(0, i as int))),
            decreases ps.len() - i,
        {
            let lines = &self.panels[i].lines;
            let ghost base = all_line_ranges(ps.subrange(0, i as int));
            let ghost lrs = line_ranges(lines@);
            assert(panel_wf(ps[i as int]));
            let mut j: usize = 0;
            assert(base + lrs.subrange(0, 0) =~= base);
            while j < lines.len()
                invariant
                    j <= lines@.len(),
                    lrs == line_ranges(lines@),
                    ranges_wf(lrs),
                    ranges_wf(base),
                    a == min_start(base + lrs.subrange(0, j as int)),
                    b == max_end(base + lrs.subrange(0, j as int)),
                decreases lines@.len() - j,
            {
                let ghost pre = base + lrs.subrange(0, j as int);
                assert((base + lrs.subrange(0, j + 1)).drop_last() =~= pre);
                assert((base + lrs.subrange(0, j + 1)).last() == lrs[j as int]);
                assert(ranges_wf(pre)) by {
                    assert forall|k: int| 0 <= k < pre.len() implies range_wf(#[trigger] pre[k]) by {
                        if k < base.len() {
                            assert(pre[k] == base[k]);
                        } else {
                            assert(pre[k] == lrs[k - base.len()]);
                        }
                    }
                }
                proof {
                    lemma_pick_wf(pre, false, false);
                    lemma_pick_wf(pre, true, true);
                }
                let r = lines[j].time_range();
                assert(*r == lrs[j as int]);
                a = pick_step(a, r, false, false);
                b = pick_step(b, r, true, true);
                j = j + 1;
            }
            assert(lrs.subrange(0, j as int) =~= lrs);
            assert(ps.subrange(0, i + 1).drop_last() =~= ps.subrange(0, i as int));
            assert(all_line_ranges(ps.subrange(0, i + 1)) == base + lrs);
            assert(ranges_wf(base + lrs)) by {
                assert forall|k: int| 0 <= k < (base + lrs).len() implies range_wf(#[trigger] (base + lrs)[k]) by {
                    if k < base.len() {
                        assert((base + lrs)[k] == base[k]);
                    } else {
                        assert((base + lrs)[k] == lrs[k - base.len()]);
                    }
                }
            }
            i = i + 1;
        }
        assert(ps.subrange(0, i as int) =~= ps);
        match (a, b) {
            (Some(s), Some(e)) => Ok((s, e)),
            _ => Err(RangeError::EmptyRangeError),
        }
    }
}

/// Format of the `date time` pair of cache file rows.
pub const CSV_TIMESTAMP_FORMAT: &'static str = "%Y-%m-%d %H:%M:%S%.f";

/// The `date time` text of a cache file row: its first field and the rest of the row (which
/// begins with the time), each trimmed, joined by a space.
pub open spec fn row_time_text(row: Seq<char>) -> Seq<char> {
    let c = first_index_of(row, ',') as int;
    trimmed(row.subrange(0, c)) + " "@ + trimmed(row.subrange(c + 1, row.len() as int))
}

/// The timestamp of a cache file row; `None` when the row has no comma or its date and time do
/// not parse with `CSV_TIMESTAMP_FORMAT`.
pub open spec fn row_timestamp(row: Seq<char>) -> Option<DateTime> {
    if first_index_of(row, ',') < row.len() {
        datetime_leading(row_time_text(row), CSV_TIMESTAMP_FORMAT@)
    } else {
        None
    }
}

/// The timestamp of a cache file row: its first field is the date and the rest begins with
/// the time. A row without a comma is malformed.
pub fn csv_row_timestamp(row: &str) -> (r: Result<DateTime, RangeError>)
    ensures
        r matches Ok(d) ==> d.wf(),
        r is Ok <==> row_timestamp(row@) is Some,
        r matches Ok(d) ==> row_timestamp(row@) == Some(d),
        first_index_of(row@, ',') == row@.len() ==> r matches Err(RangeError::Generic(_)),
        first_index_of(row@, ',') < row@.len() ==> (r matches Err(e) ==> e matches RangeError::CsvDateParseError(t) && t@ == row_time_text(row@)),
{
    let comma = find_char(row, ',');
    let n = row.unicode_len();
    if comma == n {
        return Err(RangeError::Generic(String::from_str("Malformed start line")));
    }
    let date = substring(row, 0, comma);
    let time = substring(row, comma + 1, n);
    let mut text = trim(date.as_str());
    push_str(&mut text, " ");
    push_str(&mut text, trim(time.as_str()).as_str());
    assert(text@ == row_time_text(row@));
    match parse_datetime_leading(text.as_str(), CSV_TIMESTAMP_FORMAT) {
        Some(d) => Ok(d),
        None => Err(RangeError::CsvDateParseError(text)),
    }
}

/// A line's window from its cache rows: `None` when a given row does not parse; no window
/// without a first data row; the first row's timestamp to the last row's (or to itself when
/// there is no other row).
pub open spec fn rows_range(first: Option<Seq<char>>, last: Option<Seq<char>>) -> Option<Option<Range>> {
    match first {
        None => Some(None),
        Some(f) => match row_timestamp(f) {
            None => None,
            Some(s) => match last {
                None => Some(Some((s, s))),
                Some(l) => match row_timestamp(l) {
                    None => None,
                    Some(e) => Some(Some((s, e))),
                },
            },
        },
    }
}

pub open spec fn opt_str(o: Option<&str>) -> Option<Seq<char>> {
    match o {
        Some(s) => Some(s@),
        None => None,
    }
}

/// A line's window from its cache file: `first` is the first data row, `last` the last row
/// when the file has more than one. No data row gives no window; one row gives `start == end`.
pub fn csv_range_from_rows(first: Option<&str>, last: Option<&str>) -> (r: Result<
    Option<Range>,
    RangeError,
>)
    ensures
        r is Err <==> rows_range(opt_str(first), opt_str(last)) is None,
        r matches Ok(g) ==> rows_range(opt_str(first), opt_str(last)) == Some(g),
        r matches Ok(Some(g)) ==> range_wf(Some(g)),
{
    match first {
        None => Ok(None),
        Some(row) => {
            let start = match csv_row_timestamp(row) {
                Ok(d) => d,
                Err(e) => return Err(e),
            };
            match last {
                None => Ok(Some((start, start))),
                Some(row) => match csv_row_timestamp(row) {
                    Ok(end) => Ok(Some((start, end))),
                    Err(e) => Err(e),
                },
            }
        },
    }
}

} // verus!
