//! The resolved layout: panels of lines, each line bound to one concrete input file, with the
//! cache file, data point count and time window that later stages fill in.

use crate::data_source::{copy_opt_string, DataSource};
use crate::timestamp::DateTime;
use crate::align_ranges::Range;
use vstd::prelude::*;

verus! {

/// How a panel combines the time windows of its lines.
#[derive(Clone, Copy, Debug, PartialEq, Eq, Structural)]
pub enum PanelRangeMode {
    /// From the earliest start to the latest end.
    Full,
    /// The intersection of all windows, or `Full` when they do not overlap.
    BestFit,
}

/// Options of a line that decide which input file it reads, and its title.
#[derive(Clone, Debug, PartialEq, Eq)]
pub struct LineParams {
    pub title: Option<String>,
    pub file_name: Option<String>,
    pub file_id: Option<usize>,
}

#[derive(Clone, Debug, PartialEq, Eq)]
pub struct Line {
    pub data_source: DataSource,
    pub params: LineParams,
}

/// Options of a panel.
#[derive(Clone, Debug, PartialEq, Eq)]
pub struct PanelParams {
    pub panel_title: Option<String>,
    pub time_range_mode: Option<PanelRangeMode>,
}

/// Which input a line asks for.
#[derive(Clone, Debug, PartialEq, Eq)]
pub enum LineSource {
    /// An explicit file.
    FileName(String),
    /// An index into the input file list.
    FileId(usize),
    /// Every input file.
    AllInputFiles,
}

/// The concrete input file a line is bound to, and how it was chosen.
#[derive(Clone, Debug, PartialEq, Eq)]
pub enum ResolvedSource {
    /// A line meant for all inputs, bound to input `index`.
    PopulatedInput { index: usize, path: String },
    /// A line with an explicit file name.
    FileName(String),
    /// A line that named input `index`.
    FileId { index: usize, path: String },
}

#[derive(Clone, Debug)]
pub struct ResolvedLine {
    pub line: Line,
    pub source: ResolvedSource,
    /// Cache file the line reads; `None` until cache files are assigned.
    pub shared_csv_file: Option<String>,
    /// Data rows in the cache file; set after processing.
    pub data_points_count: usize,
    /// First and last timestamp of the line's data; set after range resolution.
    pub time_range: Option<(DateTime, DateTime)>,
}

#[derive(Clone, Debug)]
pub struct ResolvedPanel {
    pub lines: Vec<ResolvedLine>,
    pub params: PanelParams,
    /// Input file of a panel that was duplicated once per input file.
    pub input_file_name: Option<String>,
    /// Final time window of the panel.
    pub time_range: Option<(DateTime, DateTime)>,
}

#[derive(Clone, Debug)]
pub struct ResolvedGraphConfig {
    pub panels: Vec<ResolvedPanel>,
}

impl Line {
    pub fn new_with_data_source(data_source: DataSource) -> (r: Line)
        ensures
            r.data_source == data_source,
            r.params == (LineParams { title: None, file_name: None, file_id: None }),
    {
        Line { data_source, params: LineParams { title: None, file_name: None, file_id: None } }
    }

    pub open spec fn source_spec(&self) -> LineSource {
        match self.params.file_name {
            Some(f) => LineSource::FileName(f),
            None => match self.params.file_id {
                Some(id) => LineSource::FileId(id),
                None => LineSource::AllInputFiles,
            },
        }
    }

    /// An explicit file name wins over a file index; with neither the line reads every input.
    pub fn source(&self) -> (r: LineSource)
        ensures
            r == self.source_spec(),
    {
        match &self.params.file_name {
            Some(f) => LineSource::FileName(f.clone()),
            None => match self.params.file_id {
                Some(id) => LineSource::FileId(id),
                None => LineSource::AllInputFiles,
            },
        }
    }
}

impl LineParams {
    pub fn copy(&self) -> (r: LineParams)
        ensures
            r == *self,
    {
        LineParams {
            title: copy_opt_string(&self.title),
            file_name: copy_opt_string(&self.file_name),
            file_id: self.file_id,
        }
    }
}

impl Line {
    pub fn copy(&self) -> (r: Line)
        ensures
            r == *self,
    {
        Line { data_source: self.data_source.copy(), params: self.params.copy() }
    }
}

impl ResolvedSource {
    pub fn copy(&self) -> (r: ResolvedSource)
        ensures
            r == *self,
    {
        match self {
            ResolvedSource::PopulatedInput { index, path } => ResolvedSource::PopulatedInput {
                index: *index,
                path: path.clone(),
            },
            ResolvedSource::FileName(path) => ResolvedSource::FileName(path.clone()),
            ResolvedSource::FileId { index, path } => ResolvedSource::FileId {
                index: *index,
                path: path.clone(),
            },
        }
    }

    pub open spec fn path_spec(&self) -> String {
        match self {
            ResolvedSource::PopulatedInput { path, .. } => *path,
            ResolvedSource::FileName(path) => *path,
            ResolvedSource::FileId { path, .. } => *path,
        }
    }

    /// The input file path.
    pub fn file_name(&self) -> (r: &String)
        ensures
            *r == self.path_spec(),
    {
        match self {
            ResolvedSource::PopulatedInput { path, .. } => path,
            ResolvedSource::FileName(path) => path,
            ResolvedSource::FileId { path, .. } => path,
        }
    }

    /// Binds a line source to input `input_id` (named `input_file_name`): a file index binds
    /// when it is that input, an all-inputs source always binds, an explicit file never does.
    pub fn try_match_input(source: LineSource, input_id: usize, input_file_name: &String) -> (r:
        Option<ResolvedSource>)
        ensures
            r == (match source {
                LineSource::FileId(id) => if id == input_id {
                    Some(ResolvedSource::FileId { index: input_id, path: *input_file_name })
                } else {
                    None
                },
                LineSource::AllInputFiles => Some(
                    ResolvedSource::PopulatedInput { index: input_id, path: *input_file_name },
                ),
                LineSource::FileName(_) => None,
            }),
    {
        match source {
            LineSource::FileId(id) => {
                if id == input_id {
                    Some(ResolvedSource::FileId { index: input_id, path: input_file_name.clone() })
                } else {
                    None
                }
            },
            LineSource::AllInputFiles => Some(
                ResolvedSource::PopulatedInput { index: input_id, path: input_file_name.clone() },
            ),
            LineSource::FileName(_) => None,
        }
    }

    /// Binds a line source that names its file explicitly.
    pub fn try_from_explicit(source: LineSource) -> (r: Option<ResolvedSource>)
        ensures
            r == (match source {
                LineSource::FileName(name) => Some(ResolvedSource::FileName(name)),
                _ => None,
            }),
    {
        match source {
            LineSource::FileName(name) => Some(ResolvedSource::FileName(name)),
            _ => None,
        }
    }
}

impl ResolvedLine {
    pub fn copy(&self) -> (r: ResolvedLine)
        ensures
            r == *self,
    {
        ResolvedLine {
            line: self.line.copy(),
            source: self.source.copy(),
            shared_csv_file: copy_opt_string(&self.shared_csv_file),
            data_points_count: self.data_points_count,
            time_range: self.time_range,
        }
    }

    pub fn from_explicit_name(line: Line, file_name: String) -> (r: ResolvedLine)
        ensures
            r.line == line,
            r.source == ResolvedSource::FileName(file_name),
            r.shared_csv_file is None,
            r.data_points_count == 0,
            r.time_range is None,
    {
        ResolvedLine {
            line,
            source: ResolvedSource::FileName(file_name),
            shared_csv_file: None,
            data_points_count: 0,
            time_range: None,
        }
    }

    /// Binds `line` to an input: with `(index, path)` of one input file, as
    /// `ResolvedSource::try_match_input` does; without, only a line with an explicit file name.
    pub fn try_from_populated_inputs(line: Line, populated_input: Option<(usize, &String)>) -> (r:
        Option<ResolvedLine>)
        ensures
            r == (match populated_input {
                None => match line.source_spec() {
                    LineSource::FileName(name) => Some(resolved_of(line, ResolvedSource::FileName(name))),
                    _ => None,
                },
                Some((id, f)) => match line.source_spec() {
                    LineSource::FileId(i) => if i == id {
                        Some(resolved_of(line, ResolvedSource::FileId { index: id, path: *f }))
                    } else {
                        None
                    },
                    LineSource::AllInputFiles => Some(
                        resolved_of(line, ResolvedSource::PopulatedInput { index: id, path: *f }),
                    ),
                    LineSource::FileName(_) => None,
                },
            }),
    {
        let source = match populated_input {
            None => ResolvedSource::try_from_explicit(line.source()),
            Some((id, f)) => ResolvedSource::try_match_input(line.source(), id, f),
        };
        match source {
            Some(source) => Some(
                ResolvedLine { line, source, shared_csv_file: None, data_points_count: 0, time_range: None },
            ),
            None => None,
        }
    }

    pub fn is_empty(&self) -> (r: bool)
        ensures
            r == (self.data_points_count == 0),
    {
        self.data_points_count == 0
    }

    pub fn shared_csv_filename(&self) -> (r: Option<String>)
        ensures
            r == self.shared_csv_file,
    {
        match &self.shared_csv_file {
            Some(s) => Some(s.clone()),
            None => None,
        }
    }

    pub fn set_shared_csv_filename(&mut self, path: &String)
        ensures
            final(self).shared_csv_file == Some(*path),
            final(self).line == old(self).line,
            final(self).source == old(self).source,
            final(self).data_points_count == old(self).data_points_count,
            final(self).time_range == old(self).time_range,
    {
        self.shared_csv_file = Some(path.clone());
    }

    pub fn set_data_points_count(&mut self, count: usize)
        ensures
            final(self).data_points_count == count,
            final(self).line == old(self).line,
            final(self).source == old(self).source,
            final(self).shared_csv_file == old(self).shared_csv_file,
            final(self).time_range == old(self).time_range,
    {
        self.data_points_count = count;
    }

    pub fn set_time_range(&mut self, start: DateTime, end: DateTime)
        ensures
            final(self).time_range == Some((start, end)),
            final(self).line == old(self).line,
            final(self).source == old(self).source,
            final(self).shared_csv_file == old(self).shared_csv_file,
            final(self).data_points_count == old(self).data_points_count,
    {
        self.time_range = Some((start, end));
    }

    pub fn time_range(&self) -> (r: &Option<(DateTime, DateTime)>)
        ensures
            *r == self.time_range,
    {
        &self.time_range
    }

    pub fn source_file_name(&self) -> (r: &String)
        ensures
            *r == self.source.path_spec(),
    {
        self.source.file_name()
    }
}

impl ResolvedPanel {
    pub fn new_with_lines(lines: Vec<ResolvedLine>) -> (r: ResolvedPanel)
        ensures
            r.lines == lines,
            r.params == (PanelParams { panel_title: None, time_range_mode: None }),
            r.input_file_name is None,
            r.time_range is None,
    {
        ResolvedPanel {
            lines,
            params: PanelParams { panel_title: None, time_range_mode: None },
            input_file_name: None,
            time_range: None,
        }
    }

    /// A panel is empty when it has no line with data.
    pub fn is_empty(&self) -> (r: bool)
        ensures
            r == (forall|i: int| 0 <= i < self.lines@.len() ==> #[trigger] self.lines@[i].data_points_count == 0),
    {
        let mut i: usize = 0;
        while i < self.lines.len()
            invariant
                i <= self.lines@.len(),
                forall|k: int| 0 <= k < i ==> #[trigger] self.lines@[k].data_points_count == 0,
            decreases self.lines@.len() - i,
        {
            if !self.lines[i].is_empty() {
                return false;
            }
            i = i + 1;
        }
        true
    }

    pub fn time_range(&self) -> (r: &Option<(DateTime, DateTime)>)
        ensures
            *r == self.time_range,
    {
        &self.time_range
    }

    pub fn set_time_range(&mut self, start: DateTime, end: DateTime)
        ensures
            final(self).time_range == Some((start, end)),
            final(self).lines == old(self).lines,
            final(self).params == old(self).params,
            final(self).input_file_name == old(self).input_file_name,
    {
        self.time_range = Some((start, end));
    }
}

/// A panel of lines as the user laid it out.
#[derive(Clone, Debug, PartialEq, Eq)]
pub struct Panel {
    pub lines: Vec<Line>,
    pub params: PanelParams,
}

/// The layout as the user wrote it: panels of lines not yet bound to input files.
#[derive(Clone, Debug, PartialEq, Eq)]
pub struct GraphConfig {
    pub panels: Vec<Panel>,
}

/// Failures of layout expansion.
#[derive(Clone, Debug, PartialEq, Eq)]
pub enum ExpandError {
    /// A line names an input file index beyond the input list.
    InvalidFileId(usize),
}

impl PanelParams {
    pub fn copy(&self) -> (r: PanelParams)
        ensures
            r == *self,
    {
        PanelParams { panel_title: copy_opt_string(&self.panel_title), time_range_mode: self.time_range_mode }
    }
}

pub open spec fn resolved_of(line: Line, source: ResolvedSource) -> ResolvedLine {
    ResolvedLine { line, source, shared_csv_file: None, data_points_count: 0, time_range: None }
}

/// A line bound to every input it asks for, when panels are shared by all inputs.
pub open spec fn line_expansion(line: Line, input: Seq<String>) -> Seq<ResolvedLine> {
    match line.source_spec() {
        LineSource::FileName(f) => seq![resolved_of(line, ResolvedSource::FileName(f))],
        LineSource::FileId(id) => if id < input.len() {
            seq![resolved_of(line, ResolvedSource::FileId { index: id, path: input[id as int] })]
        } else {
            Seq::empty()
        },
        LineSource::AllInputFiles => Seq::new(
            input.len(),
            |i: int| resolved_of(line, ResolvedSource::PopulatedInput { index: i as usize, path: input[i] }),
        ),
    }
}

pub open spec fn lines_expansion(lines: Seq<Line>, input: Seq<String>) -> Seq<ResolvedLine>
    decreases lines.len(),
{
    if lines.len() == 0 {
        Seq::empty()
    } else {
        lines_expansion(lines.drop_last(), input) + line_expansion(lines.last(), input)
    }
}

/// Lines bound to a named file or file index; lines for all inputs give nothing here.
pub open spec fn fixed_expansion(line: Line, input: Seq<String>) -> Seq<ResolvedLine> {
    match line.source_spec() {
        LineSource::FileName(f) => seq![resolved_of(line, ResolvedSource::FileName(f))],
        LineSource::FileId(id) => seq![resolved_of(line, ResolvedSource::FileId { index: id, path: input[id as int] })],
        LineSource::AllInputFiles => Seq::empty(),
    }
}

pub open spec fn fixed_lines(lines: Seq<Line>, input: Seq<String>) -> Seq<ResolvedLine>
    decreases lines.len(),
{
    if lines.len() == 0 {
        Seq::empty()
    } else {
        fixed_lines(lines.drop_last(), input) + fixed_expansion(lines.last(), input)
    }
}

/// Lines for all inputs, bound to input `i` named `f`.
pub open spec fn populated_lines(lines: Seq<Line>, i: int, f: String) -> Seq<ResolvedLine>
    decreases lines.len(),
{
    if lines.len() == 0 {
        Seq::empty()
    } else {
        populated_lines(lines.drop_last(), i, f) + (if lines.last().source_spec() is AllInputFiles {
            seq![resolved_of(lines.last(), ResolvedSource::PopulatedInput { index: i as usize, path: f })]
        } else {
            Seq::empty()
        })
    }
}

pub open spec fn has_all_inputs_line(lines: Seq<Line>) -> bool {
    exists|k: int| 0 <= k < lines.len() && (#[trigger] lines[k]).source_spec() is AllInputFiles
}

/// What a resolved panel holds, as values.
pub type PanelView = (Seq<ResolvedLine>, PanelParams, Option<String>, Option<Range>);

pub open spec fn panel_view(p: ResolvedPanel) -> PanelView {
    (p.lines@, p.params, p.input_file_name, p.time_range)
}

/// The panels one user panel becomes when every input file gets its own panels: one per input
/// when the panel has a line for all inputs, else the panel once.
pub open spec fn per_file_expansion(p: Panel, input: Seq<String>) -> Seq<PanelView> {
    if has_all_inputs_line(p.lines@) {
        Seq::new(
            input.len(),
            |i: int| (fixed_lines(p.lines@, input) + populated_lines(p.lines@, i, input[i]), p.params, Some(input[i]), None),
        )
    } else {
        seq![(fixed_lines(p.lines@, input), p.params, None, None)]
    }
}

pub open spec fn per_file_panels(panels: Seq<Panel>, input: Seq<String>) -> Seq<PanelView>
    decreases panels.len(),
{
    if panels.len() == 0 {
        Seq::empty()
    } else {
        per_file_panels(panels.drop_last(), input) + per_file_expansion(panels.last(), input)
    }
}

/// A line's file index, if it names one, is within `n` inputs.
pub open spec fn id_ok(line: Line, n: nat) -> bool {
    match line.source_spec() {
        LineSource::FileId(id) => id < n,
        _ => true,
    }
}

/// Every file index named in the layout is within the input list.
pub open spec fn file_ids_valid(graph: GraphConfig, input: Seq<String>) -> bool {
    forall|k: int, j: int|
        0 <= k < graph.panels@.len() && 0 <= j < graph.panels@[k].lines@.len() ==> id_ok(
            #[trigger] graph.panels@[k].lines@[j],
            input.len(),
        )
}

fn resolved_line_of(line: &Line, source: ResolvedSource) -> (r: ResolvedLine)
    ensures
        r == resolved_of(*line, source),
{
    ResolvedLine { line: line.copy(), source, shared_csv_file: None, data_points_count: 0, time_range: None }
}

fn expand_shared_lines(lines: &Vec<Line>, input: &Vec<String>) -> (r: Vec<ResolvedLine>)
    ensures
        r@ == lines_expansion(lines@, input@),
{
    let mut out: Vec<ResolvedLine> = Vec::new();
    let mut k: usize = 0;
    assert(lines@.subrange(0, 0) =~= Seq::<Line>::empty());
    while k < lines.len()
        invariant
            k <= lines@.len(),
            out@ == lines_expansion(lines@.subrange(0, k as int), input@),
        decreases lines@.len() - k,
    {
        let line = &lines[k];
        let ghost base = out@;
        assert(lines@.subrange(0, k + 1).drop_last() =~= lines@.subrange(0, k as int));
        match line.source() {
            LineSource::FileName(f) => {
                out.push(resolved_line_of(line, ResolvedSource::FileName(f)));
                assert(out@ =~= base + line_expansion(*line, input@));
            },
            LineSource::FileId(id) => {
                if id < input.len() {
                    out.push(resolved_line_of(line, ResolvedSource::FileId { index: id, path: input[id].clone() }));
                }
                assert(out@ =~= base + line_expansion(*line, input@));
            },
            LineSource::AllInputFiles => {
                let mut i: usize = 0;
                while i < input.len()
                    invariant
                        i <= input@.len(),
                        line.source_spec() is AllInputFiles,
                        out@ == base + line_expansion(*line, input@).subrange(0, i as int),
                    decreases input@.len() - i,
                {
                    out.push(resolved_line_of(line, ResolvedSource::PopulatedInput { index: i, path: input[i].clone() }));
                    assert(out@ =~= base + line_expansion(*line, input@).subrange(0, i + 1));
                    i = i + 1;
                }
                assert(line_expansion(*line, input@).subrange(0, i as int) =~= line_expansion(*line, input@));
            },
        }
        k = k + 1;
    }
    assert(lines@.subrange(0, k as int) =~= lines@);
    out
}

fn expand_fixed_lines(lines: &Vec<Line>, input: &Vec<String>) -> (r: Result<Vec<ResolvedLine>, ExpandError>)
    ensures
        r is Ok == (forall|j: int| 0 <= j < lines@.len() ==> id_ok(#[trigger] lines@[j], input@.len())),
        r matches Ok(v) ==> v@ == fixed_lines(lines@, input@),
{
    let mut out: Vec<ResolvedLine> = Vec::new();
    let mut k: usize = 0;
    assert(lines@.subrange(0, 0) =~= Seq::<Line>::empty());
    while k < lines.len()
        invariant
            k <= lines@.len(),
            out@ == fixed_lines(lines@.subrange(0, k as int), input@),
            forall|j: int| 0 <= j < k ==> id_ok(#[trigger] lines@[j], input@.len()),
        decreases lines@.len() - k,
    {
        let line = &lines[k];
        assert(lines@.subrange(0, k + 1).drop_last() =~= lines@.subrange(0, k as int));
        match line.source() {
            LineSource::FileName(f) => {
                out.push(resolved_line_of(line, ResolvedSource::FileName(f)));
            },
            LineSource::FileId(id) => {
                if id >= input.len() {
                    return Err(ExpandError::InvalidFileId(id));
                }
                out.push(resolved_line_of(line, ResolvedSource::FileId { index: id, path: input[id].clone() }));
            },
            LineSource::AllInputFiles => {},
        }
        assert(out@ =~= fixed_lines(lines@.subrange(0, k + 1), input@));
        k = k + 1;
    }
    assert(lines@.subrange(0, k as int) =~= lines@);
    Ok(out)
}

fn expand_populated_lines(lines: &Vec<Line>, i: usize, f: &String, out: &mut Vec<ResolvedLine>)
    ensures
        final(out)@ == old(out)@ + populated_lines(lines@, i as int, *f),
{
    let mut k: usize = 0;
    assert(lines@.subrange(0, 0) =~= Seq::<Line>::empty());
    assert(old(out)@ =~= old(out)@ + populated_lines(lines@.subrange(0, 0), i as int, *f));
    while k < lines.len()
        invariant
            k <= lines@.len(),
            out@ == old(out)@ + populated_lines(lines@.subrange(0, k as int), i as int, *f),
        decreases lines@.len() - k,
    {
        let line = &lines[k];
        assert(lines@.subrange(0, k + 1).drop_last() =~= lines@.subrange(0, k as int));
        match line.source() {
            LineSource::AllInputFiles => {
                out.push(resolved_line_of(line, ResolvedSource::PopulatedInput { index: i, path: f.clone() }));
            },
            _ => {},
        }
        assert(out@ =~= old(out)@ + populated_lines(lines@.subrange(0, k + 1), i as int, *f));
        k = k + 1;
    }
    assert(lines@.subrange(0, k as int) =~= lines@);
}

fn any_all_inputs_line(lines: &Vec<Line>) -> (r: bool)
    ensures
        r == has_all_inputs_line(lines@),
{
    let mut k: usize = 0;
    while k < lines.len()
        invariant
            k <= lines@.len(),
            forall|j: int| 0 <= j < k ==> !((#[trigger] lines@[j]).source_spec() is AllInputFiles),
        decreases lines@.len() - k,
    {
        if let LineSource::AllInputFiles = lines[k].source() {
            return true;
        }
        k = k + 1;
    }
    false
}

/// Binds every line of the layout to concrete input files. Without per-file panels, each
/// panel keeps its place and a line for all inputs (or for an input index) becomes one line
/// per matching input. With per-file panels, a panel holding a line for all inputs becomes one
/// panel per input file, which holds the panel's lines bound to named files or indices followed
/// by its all-inputs lines bound to that file; other panels stay single. There, an index
/// beyond the input list is an error.
pub fn expand_graph_config(graph: &GraphConfig, input: &Vec<String>, per_file: bool) -> (r: Result<
    ResolvedGraphConfig,
    ExpandError,
>)
    ensures
        r is Err == (per_file && !file_ids_valid(*graph, input@)),
        r matches Ok(c) ==> !per_file ==> c.panels@.len() == graph.panels@.len() && forall|k: int|
            0 <= k < c.panels@.len() ==> panel_view(#[trigger] c.panels@[k]) == (
                lines_expansion(graph.panels@[k].lines@, input@),
                graph.panels@[k].params,
                None::<String>,
                None::<Range>,
            ),
        r matches Ok(c) ==> per_file ==> c.panels@.map_values(|p: ResolvedPanel| panel_view(p))
            == per_file_panels(graph.panels@, input@),
{
    let mut panels: Vec<ResolvedPanel> = Vec::new();
    let n = graph.panels.len();
    let mut k: usize = 0;
    assert(graph.panels@.subrange(0, 0) =~= Seq::<Panel>::empty());
    while k < n
        invariant
            n == graph.panels@.len(),
            k <= n,
            !per_file ==> panels@.len() == k && forall|q: int|
                0 <= q < k ==> panel_view(#[trigger] panels@[q]) == (
                    lines_expansion(graph.panels@[q].lines@, input@),
                    graph.panels@[q].params,
                    None::<String>,
                    None::<Range>,
                ),
            per_file ==> panels@.map_values(|p: ResolvedPanel| panel_view(p)) == per_file_panels(
                graph.panels@.subrange(0, k as int),
                input@,
            ),
            per_file ==> forall|q: int, j: int|
                0 <= q < k && 0 <= j < graph.panels@[q].lines@.len() ==> id_ok(
                    #[trigger] graph.panels@[q].lines@[j],
                    input@.len(),
                ),
        decreases n - k,
    {
        let panel = &graph.panels[k];
        let ghost before = panels@.map_values(|p: ResolvedPanel| panel_view(p));
        if !per_file {
            let lines = expand_shared_lines(&panel.lines, input);
            panels.push(ResolvedPanel { lines, params: panel.params.copy(), input_file_name: None, time_range: None });
        } else {
            assert(graph.panels@.subrange(0, k + 1).drop_last() =~= graph.panels@.subrange(0, k as int));
            let fixed = match expand_fixed_lines(&panel.lines, input) {
                Ok(v) => v,
                Err(e) => {
                    assert(!file_ids_valid(*graph, input@)) by {
                        let j = choose|j: int| 0 <= j < panel.lines@.len() && !(id_ok(#[trigger] panel.lines@[j], input@.len()));
                        assert(graph.panels@[k as int].lines@[j] == panel.lines@[j]);
                    }
                    return Err(e);
                },
            };
            if any_all_inputs_line(&panel.lines) {
                let mut i: usize = 0;
                let ghost exp = per_file_expansion(*panel, input@);
                while i < input.len()
                    invariant
                        i <= input@.len(),
                        has_all_inputs_line(panel.lines@),
                        exp == per_file_expansion(*panel, input@),
                        fixed@ == fixed_lines(panel.lines@, input@),
                        panels@.map_values(|p: ResolvedPanel| panel_view(p)) == before + exp.subrange(0, i as int),
                    decreases input@.len() - i,
                {
                    let mut lines: Vec<ResolvedLine> = Vec::new();
                    let mut j: usize = 0;
                    while j < fixed.len()
                        invariant
                            j <= fixed@.len(),
                            lines@ == fixed@.subrange(0, j as int),
                        decreases fixed@.len() - j,
                    {
                        lines.push(fixed[j].copy());
                        assert(lines@ =~= fixed@.subrange(0, j + 1));
                        j = j + 1;
                    }
                    assert(fixed@.subrange(0, j as int) =~= fixed@);
                    expand_populated_lines(&panel.lines, i, &input[i], &mut lines);
                    let ghost prev = panels@;
                    panels.push(ResolvedPanel {
                        lines,
                        params: panel.params.copy(),
                        input_file_name: Some(input[i].clone()),
                        time_range: None,
                    });
                    assert(panels@.map_values(|p: ResolvedPanel| panel_view(p)) =~= prev.map_values(|p: ResolvedPanel| panel_view(p)).push(exp[i as int]));
                    assert(before + exp.subrange(0, i + 1) =~= (before + exp.subrange(0, i as int)).push(exp[i as int]));
                    i = i + 1;
                }
                assert(exp.subrange(0, i as int) =~= exp);
            } else {
                let ghost prev = panels@;
                panels.push(ResolvedPanel { lines: fixed, params: panel.params.copy(), input_file_name: None, time_range: None });
                assert(panels@.map_values(|p: ResolvedPanel| panel_view(p)) =~= prev.map_values(|p: ResolvedPanel| panel_view(p)).push(per_file_expansion(*panel, input@)[0]));
                assert(panels@.map_values(|p: ResolvedPanel| panel_view(p)) =~= before + per_file_expansion(*panel, input@));
            }
            assert(forall|j: int| 0 <= j < panel.lines@.len() ==> id_ok(#[trigger] panel.lines@[j], input@.len()));
            assert forall|q: int, j: int|
                0 <= q < k + 1 && 0 <= j < graph.panels@[q].lines@.len() implies id_ok(
                    #[trigger] graph.panels@[q].lines@[j],
                    input@.len(),
                ) by {
                if q == k {
                    assert(graph.panels@[q].lines@[j] == panel.lines@[j]);
                }
            }
        }
        k = k + 1;
    }
    assert(graph.panels@.subrange(0, k as int) =~= graph.panels@);
    Ok(ResolvedGraphConfig { panels })
}

/// The title of a line: its own, or its data source's; with several input files, the input
/// file's stem follows in parentheses.
pub open spec fn line_title(l: ResolvedLine, multi_input_files: bool) -> Seq<char> {
    let base = match l.line.params.title {
        Some(t) => t@,
        None => crate::data_source::default_title(l.line.data_source),
    };
    if multi_input_files {
        base + " ("@ + crate::cache_files::file_stem_of(l.source.path_spec()@) + ")"@
    } else {
        base
    }
}

impl ResolvedLine {
    pub fn match_token(&self) -> (r: String)
        ensures
            r@ == self.line.data_source.token_spec(),
    {
        self.line.data_source.match_token()
    }

    pub fn guard(&self) -> (r: &Option<String>)
        ensures
            *r == self.line.data_source.guard_spec(),
    {
        self.line.data_source.guard()
    }

    pub fn regex_filename_tag(&self) -> (r: String)
        ensures
            r@ == crate::data_source::url_encoded(self.line.data_source.regex_pattern_spec()),
    {
        self.line.data_source.regex_filename_tag()
    }

    pub fn can_csv_file_be_shared(&self) -> (r: bool)
        ensures
            r == self.line.data_source.is_shareable(),
    {
        self.line.data_source.can_be_shared()
    }

    pub fn title(&self, multi_input_files: bool) -> (r: String)
        ensures
            r@ == line_title(*self, multi_input_files),
    {
        let mut t = match &self.line.params.title {
            Some(t) => t.clone(),
            None => self.line.data_source.title(),
        };
        if multi_input_files {
            crate::text::push_str(&mut t, " (");
            let stem = crate::cache_files::file_stem(self.source_file_name().as_str());
            crate::text::push_str(&mut t, stem.as_str());
            crate::text::push_str(&mut t, ")");
        }
        t
    }
}

impl ResolvedPanel {
    pub fn input_file(&self) -> (r: &Option<String>)
        ensures
            *r == self.input_file_name,
    {
        &self.input_file_name
    }

    /// Title lines: the panel's own title, then `[<input file stem>]` for a panel of one input.
    pub fn title(&self) -> (r: Vec<String>)
        ensures
            r@.map_values(|x: String| x@) == (match self.params.panel_title {
                Some(t) => seq![t@],
                None => Seq::empty(),
            }) + (match self.input_file_name {
                Some(f) => seq!["["@ + crate::cache_files::file_stem_of(f@) + "]"@],
                None => Seq::empty(),
            }),
    {
        let mut out: Vec<String> = Vec::new();
        if let Some(t) = &self.params.panel_title {
            out.push(t.clone());
        }
        if let Some(f) = &self.input_file_name {
            let mut s = String::from_str("[");
            crate::text::push_str(&mut s, crate::cache_files::file_stem(f.as_str()).as_str());
            crate::text::push_str(&mut s, "]");
            out.push(s);
        }
        assert(out@.map_values(|x: String| x@) =~= (match self.params.panel_title {
            Some(t) => seq![t@],
            None => Seq::<Seq<char>>::empty(),
        }) + (match self.input_file_name {
            Some(f) => seq!["["@ + crate::cache_files::file_stem_of(f@) + "]"@],
            None => Seq::<Seq<char>>::empty(),
        }));
        out
    }
}

impl ResolvedGraphConfig {
    /// Copies of all lines, panel by panel.
    pub fn all_lines(&self) -> (r: Vec<ResolvedLine>)
        ensures
            r@ == crate::cache_files::flat_lines(self.panels@),
    {
        crate::cache_files::flatten(&self.panels)
    }
}

} // verus!
