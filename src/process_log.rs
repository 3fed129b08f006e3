//! The line processor: guards, timestamp extraction, matching, and the records that become a
//! cache file.

use crate::data_source::{captures_view, pattern_captures, regex_captures, regex_groups, Captures, DataSource, PatternError};
use crate::decimal::{decimal_text, in_millis, normalize_value, number_of_text, Decimal};
use crate::text::{find_char, first_index_of, contains_seq, int_text, i128_to_string, nat_digits, push_str, str_contains, u128_to_string};
use crate::timestamp::{date_text, is_suffix_of, timestamp_prefix, millis_between, time_text, ExtractedNaiveDateTime, TimestampFormat};
use vstd::prelude::*;

verus! {

/// Timestamp failures tolerated in one scan; one more ends it.
pub const MAX_TIMESTAMP_FAILURES: usize = 3;

/// Date written in cache files when the timestamp format carries no date.
pub const PLACEHOLDER_DATE: &'static str = "2025-01-01";

pub const CSV_HEADER: &'static str = "date,time,value,count,delta";

#[derive(Debug)]
pub enum ProcessError {
    Regex(regex::Error),
    FileIoError(String, String),
    InvalidInputFile(String, String),
    RegexCapturesGroupsInvalidCount(String),
    TimestampExtractionFailure(String, TimestampFormat, String),
}

/// Running state of one processor: matches so far and the timestamp of the last one.
#[derive(Clone, Debug)]
pub struct ProcessingState {
    pub count: u64,
    pub last_timestamp: Option<ExtractedNaiveDateTime>,
}

/// One output row.
#[derive(Clone, Debug)]
pub struct LogRecord {
    pub timestamp: ExtractedNaiveDateTime,
    pub value: Decimal,
    pub count: u64,
    /// Milliseconds since the previous match of the same processor; `None` for the first.
    pub delta: Option<i64>,
}

pub struct LineProcessor {
    pub data_source: DataSource,
    /// The regular expression lines are matched with (see `DataSource::regex_pattern`).
    pub pattern: String,
    pub state: ProcessingState,
    pub records: Vec<LogRecord>,
    pub output_path: Option<String>,
    pub timestamp_format: TimestampFormat,
    pub timestamp_extraction_failure_count: usize,
    pub input_file_name: String,
    /// Timestamps of every matched line so far, in file order.
    pub matched: Ghost<Seq<ExtractedNaiveDateTime>>,
}

/// The value a record carries for a match with captures `caps`; `None` when a field capture
/// is not a number, in which case no record is made.
pub open spec fn record_value(ds: DataSource, caps: (Option<Seq<char>>, Option<Seq<char>>)) -> Option<Decimal> {
    match ds {
        DataSource::EventValue { yvalue, .. } => Some(yvalue),
        DataSource::FieldValue(_) => {
            let raw = match caps.0 {
                Some(v) => v,
                None => "0"@,
            };
            let unit = match caps.1 {
                Some(u) => u,
                None => ""@,
            };
            match number_of_text(raw) {
                Some(d) => Some(in_millis(d, unit)),
                None => None,
            }
        },
        _ => Some(Decimal { mantissa: 1, exponent: 0 }),
    }
}

/// One more timestamp failure, saturating.
pub open spec fn next_failures(f: nat) -> nat {
    if f < usize::MAX {
        f + 1
    } else {
        f
    }
}

/// `o` holds the captures `cv` (as values) with the timestamp `t`, or nothing when `cv` is
/// `None`.
pub open spec fn capture_link(
    o: Option<(Captures, ExtractedNaiveDateTime)>,
    cv: Option<(Option<Seq<char>>, Option<Seq<char>>)>,
    t: ExtractedNaiveDateTime,
) -> bool {
    match cv {
        None => o is None,
        Some(c) => match o {
            Some(m) => m.1 == t && captures_view(m.0) == c,
            None => false,
        },
    }
}

/// Delta of the `n`-th match (counting from 1) among the matched timestamps `m`.
pub open spec fn delta_of(m: Seq<ExtractedNaiveDateTime>, n: int) -> Option<i64> {
    if n <= 1 {
        None
    } else {
        Some(millis_between(m[n - 1], m[n - 2]) as i64)
    }
}

impl ProcessingState {
    pub fn new() -> (r: Self)
        ensures
            r.count == 0,
            r.last_timestamp is None,
    {
        ProcessingState { count: 0, last_timestamp: None }
    }

    /// Counts one more match and returns the new count.
    pub fn next_count(&mut self) -> (r: u64)
        requires
            old(self).count < u64::MAX,
        ensures
            r == old(self).count + 1,
            final(self).count == r,
            final(self).last_timestamp == old(self).last_timestamp,
    {
        self.count = self.count + 1;
        self.count
    }

    /// Milliseconds since the previous match, and `current` becomes the previous match.
    pub fn compute_delta(&mut self, current: ExtractedNaiveDateTime) -> (r: Option<i64>)
        requires
            current.wf(),
            old(self).last_timestamp matches Some(p) ==> p.wf() && p.has_date() == current.has_date(),
        ensures
            r == (match old(self).last_timestamp {
                Some(p) => Some(millis_between(current, p) as i64),
                None => None,
            }),
            final(self).last_timestamp == Some(current),
            final(self).count == old(self).count,
    {
        let diff = match &self.last_timestamp {
            Some(prev) => Some(current.signed_duration_since(prev)),
            None => None,
        };
        self.last_timestamp = Some(current);
        diff
    }
}

impl LineProcessor {
    /// The processor's invariant: counts, deltas and timestamps of the records follow the
    /// sequence of matched lines.
    pub open spec fn wf(&self) -> bool {
        let m = self.matched@;
        let n = self.records@.len();
        &&& self.pattern@ == self.data_source.regex_pattern_spec()
        &&& self.state.count == m.len()
        &&& self.state.last_timestamp == (if m.len() == 0 {
            None
        } else {
            Some(m.last())
        })
        &&& forall|i: int|
            0 <= i < m.len() ==> (#[trigger] m[i]).wf() && m[i].has_date() == (
            self.timestamp_format is DateTime)
        &&& forall|i: int|
            0 <= i < n ==> {
                let r = #[trigger] self.records@[i];
                &&& 1 <= r.count <= m.len()
                &&& r.timestamp == m[r.count - 1]
                &&& r.delta == delta_of(m, r.count as int)
            }
        &&& forall|i: int, j: int|
            0 <= i < j < n ==> self.records@[j].count - self.records@[i].count >= j - i
        &&& !(self.data_source is FieldValue) ==> n == m.len()
    }

    /// A processor for one data source and one cache file; fails when the pattern does not
    /// compile or a field pattern has more than two capture groups.
    pub fn from_data_source(
        data_source: DataSource,
        output_path: Option<String>,
        timestamp_format: TimestampFormat,
        input_file_name: String,
    ) -> (r: Result<Self, ProcessError>)
        ensures
            r matches Ok(p) ==> {
                &&& p.wf()
                &&& p.data_source == data_source
                &&& p.output_path == output_path
                &&& p.timestamp_format == timestamp_format
                &&& p.input_file_name == input_file_name
                &&& p.records@.len() == 0
                &&& p.state.count == 0
            },
            data_source.field_check() is Err ==> r matches Err(
                ProcessError::RegexCapturesGroupsInvalidCount(_),
            ),
            data_source.field_check() is Ok ==> (r is Ok <==> regex_groups(
                data_source.regex_pattern_spec(),
            ) is Some),
            data_source.field_check() is Ok ==> (r is Err ==> r matches Err(ProcessError::Regex(_))),
    {
        match data_source.compile_regex() {
            Ok(_) => {},
            Err(PatternError::Regex(e)) => return Err(ProcessError::Regex(e)),
            Err(PatternError::RegexCapturesGroupsInvalidCount(f)) => {
                return Err(ProcessError::RegexCapturesGroupsInvalidCount(f))
            },
        };
        let pattern = data_source.regex_pattern();
        Ok(
            LineProcessor {
                data_source,
                pattern,
                state: ProcessingState::new(),
                records: Vec::new(),
                output_path,
                timestamp_format,
                timestamp_extraction_failure_count: 0,
                input_file_name,
                matched: Ghost(Seq::empty()),
            },
        )
    }

    /// The timestamp prefix of `line` in the processor's format, and the rest of the line.
    pub fn extract_timestamp(&self, line: &str) -> (r: Option<(ExtractedNaiveDateTime, String)>)
        ensures
            r is None <==> timestamp_prefix(self.timestamp_format, line@) is None,
            r matches Some(p) ==> timestamp_prefix(self.timestamp_format, line@) == Some((p.0, p.1@)),
            r matches Some(p) ==> {
                &&& p.0.wf()
                &&& p.0.has_date() == (self.timestamp_format is DateTime)
                &&& is_suffix_of(p.1@, line@)
            },
    {
        self.timestamp_format.extract_timestamp(line)
    }

    pub open spec fn guard_passes(&self, line: Seq<char>) -> bool {
        match self.data_source.guard_spec() {
            Some(g) => contains_seq(line, g@),
            None => true,
        }
    }

    /// A line passes the guard when it contains it; with no guard every line passes.
    pub fn guard_matches(&self, log_line: &str) -> (r: bool)
        ensures
            r == self.guard_passes(log_line@),
    {
        match self.data_source.guard() {
            Some(g) => str_contains(log_line, g.as_str()),
            None => true,
        }
    }

    /// Counts a line whose timestamp could not be read; past `MAX_TIMESTAMP_FAILURES` such
    /// lines the scan fails, naming the file, the format and the line.
    pub fn handle_timestamp_extraction_failure(&mut self, line: &str) -> (r: Result<(), ProcessError>)
        ensures
            final(self).timestamp_extraction_failure_count == (if old(
                self,
            ).timestamp_extraction_failure_count < usize::MAX {
                old(self).timestamp_extraction_failure_count + 1
            } else {
                old(self).timestamp_extraction_failure_count as int
            }),
            (r is Err) == (final(self).timestamp_extraction_failure_count > MAX_TIMESTAMP_FAILURES),
            r matches Err(e) ==> (e matches ProcessError::TimestampExtractionFailure(f, fmt, l) && f
                == old(self).input_file_name && fmt == old(self).timestamp_format && l@ == line@),
            final(self).data_source == old(self).data_source,
            final(self).state == old(self).state,
            final(self).records == old(self).records,
            final(self).matched == old(self).matched,
            final(self).timestamp_format == old(self).timestamp_format,
            final(self).output_path == old(self).output_path,
            final(self).input_file_name == old(self).input_file_name,
            final(self).pattern == old(self).pattern,
    {
        if self.timestamp_extraction_failure_count < usize::MAX {
            self.timestamp_extraction_failure_count = self.timestamp_extraction_failure_count + 1;
        }
        if self.timestamp_extraction_failure_count > MAX_TIMESTAMP_FAILURES {
            Err(
                ProcessError::TimestampExtractionFailure(
                    self.input_file_name.clone(),
                    self.timestamp_format.copy(),
                    String::from_str(line),
                ),
            )
        } else {
            Ok(())
        }
    }

    /// Applies the guard, reads the timestamp, and matches the rest of the line (never the
    /// timestamp prefix). Returns whether the guard passed, and the captures with the timestamp
    /// when the pattern matched. A line whose timestamp cannot be read counts as a failure
    /// (see `handle_timestamp_extraction_failure`).
    pub fn try_match(&mut self, line: &str) -> (r: Result<
        (bool, Option<(Captures, ExtractedNaiveDateTime)>),
        ProcessError,
    >)
        requires
            old(self).wf(),
        ensures
            final(self).wf(),
            final(self).data_source == old(self).data_source,
            final(self).state == old(self).state,
            final(self).records == old(self).records,
            final(self).matched == old(self).matched,
            final(self).timestamp_format == old(self).timestamp_format,
            final(self).input_file_name == old(self).input_file_name,
            final(self).output_path == old(self).output_path,
            final(self).pattern == old(self).pattern,
            r matches Ok(p) ==> p.0 == old(self).guard_passes(line@),
            !old(self).guard_passes(line@) ==> (r matches Ok(p) && p.1 is None),
            !old(self).guard_passes(line@) ==> final(self).timestamp_extraction_failure_count
                == old(self).timestamp_extraction_failure_count,
            r matches Ok(p) ==> (p.1 matches Some(m) ==> m.1.wf() && m.1.has_date() == (
            old(self).timestamp_format is DateTime)),
            r matches Err(e) ==> (e matches ProcessError::TimestampExtractionFailure(f, fmt, l)
                && l@ == line@ && f == old(self).input_file_name && fmt
                == old(self).timestamp_format),
            r is Err <==> (old(self).guard_passes(line@) && timestamp_prefix(
                old(self).timestamp_format,
                line@,
            ) is None && next_failures(old(self).timestamp_extraction_failure_count as nat)
                > MAX_TIMESTAMP_FAILURES),
            old(self).guard_passes(line@) && timestamp_prefix(old(self).timestamp_format, line@)
                is None ==> final(self).timestamp_extraction_failure_count == next_failures(
                old(self).timestamp_extraction_failure_count as nat,
            ) && (r matches Ok(p) ==> p.0 && p.1 is None),
            old(self).guard_passes(line@) ==> (timestamp_prefix(old(self).timestamp_format, line@) matches Some(x) ==> {
                &&& final(self).timestamp_extraction_failure_count
                    == old(self).timestamp_extraction_failure_count
                &&& r is Ok
                &&& r->Ok_0.0
                &&& capture_link(r->Ok_0.1, regex_captures(old(self).pattern@, x.1), x.0)
            }),
    {
        if !self.guard_matches(line) {
            return Ok((false, None));
        }
        match self.extract_timestamp(line) {
            Some((timestamp, remainder)) => {
                let captures = pattern_captures(self.pattern.as_str(), remainder.as_str());
                match captures {
                    Some(c) => Ok((true, Some((c, timestamp)))),
                    None => Ok((true, None)),
                }
            },
            None => {
                match self.handle_timestamp_extraction_failure(line) {
                    Err(e) => Err(e),
                    Ok(()) => Ok((true, None)),
                }
            },
        }
    }

    /// Records a match: the count goes up by one, the delta is taken from the previous match,
    /// and a record is kept unless a field capture is not a number.
    pub fn process(&mut self, caps: Captures, timestamp: ExtractedNaiveDateTime)
        requires
            old(self).wf(),
            timestamp.wf(),
            timestamp.has_date() == (old(self).timestamp_format is DateTime),
            old(self).state.count < u64::MAX,
        ensures
            final(self).wf(),
            final(self).matched@ == old(self).matched@.push(timestamp),
            final(self).state.count == old(self).state.count + 1,
            final(self).records@ == (match record_value(old(self).data_source, captures_view(caps)) {
                Some(v) => old(self).records@.push(
                    LogRecord {
                        timestamp,
                        value: v,
                        count: (old(self).state.count + 1) as u64,
                        delta: delta_of(final(self).matched@, old(self).state.count + 1),
                    },
                ),
                None => old(self).records@,
            }),
            final(self).data_source == old(self).data_source,
            final(self).timestamp_format == old(self).timestamp_format,
            final(self).input_file_name == old(self).input_file_name,
            final(self).output_path == old(self).output_path,
            final(self).pattern == old(self).pattern,
            final(self).timestamp_extraction_failure_count
                == old(self).timestamp_extraction_failure_count,
    {
        let ghost old_records = self.records@;
        let ghost old_matched = self.matched@;
        let count = self.state.next_count();
        let delta = self.state.compute_delta(timestamp);
        self.matched = Ghost(self.matched@.push(timestamp));
        let value = match &self.data_source {
            DataSource::EventValue { yvalue, .. } => *yvalue,
            DataSource::EventCount { .. } | DataSource::EventDelta(_) => Decimal {
                mantissa: 1,
                exponent: 0,
            },
            DataSource::FieldValue(_) => {
                let raw = match &caps.value {
                    Some(v) => v.as_str(),
                    None => "0",
                };
                let unit = match &caps.unit {
                    Some(u) => u.as_str(),
                    None => "",
                };
                match normalize_value(raw, unit) {
                    Some(v) => v,
                    None => {
                        assert(self.records@ == old_records);
                        assert forall|i: int| 0 <= i < self.records@.len() implies {
                            let r = #[trigger] self.records@[i];
                            &&& 1 <= r.count <= self.matched@.len()
                            &&& r.timestamp == self.matched@[r.count - 1]
                            &&& r.delta == delta_of(self.matched@, r.count as int)
                        } by {
                            let r = self.records@[i];
                            assert(r.timestamp == old_matched[r.count - 1]);
                        }
                        return;
                    },
                }
            },
        };
        let record = LogRecord { timestamp, value, count, delta };
        self.records.push(record);
        assert(self.wf()) by {
            let m = self.matched@;
            let n = self.records@.len();
            assert forall|i: int| 0 <= i < n implies {
                let r = #[trigger] self.records@[i];
                &&& 1 <= r.count <= m.len()
                &&& r.timestamp == m[r.count - 1]
                &&& r.delta == delta_of(m, r.count as int)
            } by {
                if i < n - 1 {
                    let r = self.records@[i];
                    assert(r == old_records[i]);
                    assert(r.timestamp == old_matched[r.count - 1]);
                }
            }
            assert forall|i: int, j: int| 0 <= i < j < n implies self.records@[j].count
                - self.records@[i].count >= j - i by {
                if j == n - 1 && i < n - 1 {
                    if i < n - 2 {
                        assert(old_records[n - 2].count - old_records[i].count >= n - 2 - i);
                    }
                    assert(old_records[n - 2].count <= old_matched.len());
                }
            }
        }
    }
}

/// Counts go up by exactly one from record to record, starting at one, whenever every match
/// made a record; this is always so for event sources.
pub proof fn lemma_counts_consecutive(p: &LineProcessor)
    requires
        p.wf(),
        p.records@.len() == p.state.count || !(p.data_source is FieldValue),
    ensures
        forall|i: int| 0 <= i < p.records@.len() ==> (#[trigger] p.records@[i]).count == i + 1,
{
    let n = p.records@.len();
    assert forall|i: int| 0 <= i < n implies (#[trigger] p.records@[i]).count == i + 1 by {
        if 0 < i {
            assert(p.records@[i].count - p.records@[0].count >= i);
        }
        if i < n - 1 {
            assert(p.records@[n - 1].count - p.records@[i].count >= n - 1 - i);
        }
        assert(p.records@[n - 1].count <= n);
        assert(p.records@[0].count >= 1);
    }
}

/// In every processor, counts strictly increase from record to record.
pub proof fn lemma_counts_increase(p: &LineProcessor, i: int, j: int)
    requires
        p.wf(),
        0 <= i < j < p.records@.len(),
    ensures
        p.records@[i].count < p.records@[j].count,
{
}

/// The first record has no delta; every later one carries the signed milliseconds between its
/// own timestamp and that of the record before it, whenever every match made a record (always
/// so for event sources).
pub proof fn lemma_deltas_follow_records(p: &LineProcessor)
    requires
        p.wf(),
        p.records@.len() == p.state.count || !(p.data_source is FieldValue),
    ensures
        p.records@.len() > 0 ==> p.records@[0].delta is None,
        forall|i: int|
            0 < i < p.records@.len() ==> (#[trigger] p.records@[i]).delta == Some(
                millis_between(p.records@[i].timestamp, p.records@[i - 1].timestamp) as i64,
            ),
{
    lemma_counts_consecutive(p);
    let n = p.records@.len();
    if n > 0 {
        assert(p.records@[0].count == 1);
    }
    assert forall|i: int| 0 < i < n implies (#[trigger] p.records@[i]).delta == Some(
        millis_between(p.records@[i].timestamp, p.records@[i - 1].timestamp) as i64,
    ) by {
        assert(p.records@[i].count == i + 1);
        assert(p.records@[i - 1].count == i);
    }
}

/// Text of one cache file row: `date,time,value,count,delta`. Time-only timestamps get the
/// placeholder date; a missing delta is written as `0`.
pub open spec fn csv_row_text(r: LogRecord) -> Seq<char> {
    let date = match r.timestamp {
        ExtractedNaiveDateTime::DateTime(d) => date_text(d),
        ExtractedNaiveDateTime::Time(_) => PLACEHOLDER_DATE@,
    };
    let delta = match r.delta {
        Some(d) => int_text(d as int),
        None => "0"@,
    };
    date + ","@ + time_text(r.timestamp.time_spec()) + ","@ + decimal_text(r.value) + ","@
        + nat_digits(r.count as nat) + ","@ + delta
}

pub fn csv_row(r: &LogRecord) -> (s: String)
    requires
        r.timestamp.wf(),
    ensures
        s@ == csv_row_text(*r),
{
    let mut s = match &r.timestamp {
        ExtractedNaiveDateTime::DateTime(d) => d.date_to_text(),
        ExtractedNaiveDateTime::Time(_) => String::from_str(PLACEHOLDER_DATE),
    };
    let t = r.timestamp.time();
    push_str(&mut s, ",");
    push_str(&mut s, t.to_text().as_str());
    push_str(&mut s, ",");
    push_str(&mut s, r.value.to_text().as_str());
    push_str(&mut s, ",");
    push_str(&mut s, u128_to_string(r.count as u128).as_str());
    push_str(&mut s, ",");
    match r.delta {
        Some(d) => push_str(&mut s, i128_to_string(d as i128).as_str()),
        None => push_str(&mut s, "0"),
    }
    s
}

impl LineProcessor {
    /// The cache file's lines: the header, then one row per record. A processor without
    /// records gives the header alone.
    pub fn csv_lines(&self) -> (r: Vec<String>)
        requires
            self.wf(),
        ensures
            r@.len() == self.records@.len() + 1,
            r@[0]@ == CSV_HEADER@,
            forall|i: int|
                0 <= i < self.records@.len() ==> (#[trigger] r@[i + 1])@ == csv_row_text(
                    self.records@[i],
                ),
    {
        let mut lines: Vec<String> = Vec::new();
        lines.push(String::from_str(CSV_HEADER));
        let mut i: usize = 0;
        while i < self.records.len()
            invariant
                self.wf(),
                i <= self.records@.len(),
                lines@.len() == i + 1,
                lines@[0]@ == CSV_HEADER@,
                forall|k: int| 0 <= k < i ==> (#[trigger] lines@[k + 1])@ == csv_row_text(self.records@[k]),
            decreases self.records@.len() - i,
        {
            let r = &self.records[i];
            assert(r.timestamp == self.matched@[r.count - 1]);
            lines.push(csv_row(r));
            i = i + 1;
        }
        lines
    }
}

/// How many of `lines` pass the guard of `p`.
pub open spec fn passed_count(p: LineProcessor, lines: Seq<String>) -> nat
    decreases lines.len(),
{
    if lines.len() == 0 {
        0
    } else {
        passed_count(p, lines.drop_last()) + (if p.guard_passes(lines.last()@) {
            1nat
        } else {
            0nat
        })
    }
}

/// What feeding lines changes in a processor: the matched timestamps, the records, and the
/// count of timestamp failures.
pub type FeedView = (Seq<ExtractedNaiveDateTime>, Seq<LogRecord>, nat);

/// The guard of `ds` lets `line` through.
pub open spec fn guard_ok(ds: DataSource, line: Seq<char>) -> bool {
    match ds.guard_spec() {
        Some(g) => contains_seq(line, g@),
        None => true,
    }
}

/// `v` after one more match at `t` with captures `cv`.
pub open spec fn after_match(
    ds: DataSource,
    v: FeedView,
    t: ExtractedNaiveDateTime,
    cv: (Option<Seq<char>>, Option<Seq<char>>),
) -> FeedView {
    let m = v.0.push(t);
    let records = match record_value(ds, cv) {
        Some(val) => v.1.push(
            LogRecord { timestamp: t, value: val, count: m.len() as u64, delta: delta_of(m, m.len() as int) },
        ),
        None => v.1,
    };
    (m, records, v.2)
}

/// `v` after one log line: unchanged when the guard or the pattern does not match, one more
/// failure when the timestamp cannot be read (`None` once failures pass
/// `MAX_TIMESTAMP_FAILURES`), and one more match otherwise.
pub open spec fn feed_step(
    ds: DataSource,
    format: TimestampFormat,
    pattern: Seq<char>,
    v: FeedView,
    line: Seq<char>,
) -> Option<FeedView> {
    if !guard_ok(ds, line) {
        Some(v)
    } else {
        match timestamp_prefix(format, line) {
            None => {
                let f = next_failures(v.2);
                if f > MAX_TIMESTAMP_FAILURES {
                    None
                } else {
                    Some((v.0, v.1, f))
                }
            },
            Some((t, rest)) => match regex_captures(pattern, rest) {
                None => Some(v),
                Some(cv) => Some(after_match(ds, v, t, cv)),
            },
        }
    }
}

/// `v` after `lines` in order; lines past the largest match count change nothing.
pub open spec fn feed_all(
    ds: DataSource,
    format: TimestampFormat,
    pattern: Seq<char>,
    v: FeedView,
    lines: Seq<String>,
) -> Option<FeedView>
    decreases lines.len(),
{
    if lines.len() == 0 {
        Some(v)
    } else {
        match feed_all(ds, format, pattern, v, lines.drop_last()) {
            None => None,
            Some(w) => if w.0.len() >= u64::MAX {
                Some(w)
            } else {
                feed_step(ds, format, pattern, w, lines.last()@)
            },
        }
    }
}

proof fn lemma_feed_all_saturated(
    ds: DataSource,
    format: TimestampFormat,
    pattern: Seq<char>,
    v: FeedView,
    lines: Seq<String>,
    j: int,
    k: int,
)
    requires
        0 <= j <= k <= lines.len(),
        feed_all(ds, format, pattern, v, lines.subrange(0, j)) matches Some(w) && w.0.len()
            >= u64::MAX,
    ensures
        feed_all(ds, format, pattern, v, lines.subrange(0, k)) == feed_all(
            ds,
            format,
            pattern,
            v,
            lines.subrange(0, j),
        ),
    decreases k - j,
{
    if k > j {
        lemma_feed_all_saturated(ds, format, pattern, v, lines, j, k - 1);
        assert(lines.subrange(0, k).drop_last() =~= lines.subrange(0, k - 1));
    }
}

proof fn lemma_feed_all_failed(
    ds: DataSource,
    format: TimestampFormat,
    pattern: Seq<char>,
    v: FeedView,
    lines: Seq<String>,
    j: int,
    k: int,
)
    requires
        0 <= j <= k <= lines.len(),
        feed_all(ds, format, pattern, v, lines.subrange(0, j)) is None,
    ensures
        feed_all(ds, format, pattern, v, lines.subrange(0, k)) is None,
    decreases k - j,
{
    if k > j {
        lemma_feed_all_failed(ds, format, pattern, v, lines, j, k - 1);
        assert(lines.subrange(0, k).drop_last() =~= lines.subrange(0, k - 1));
    }
}

impl LineProcessor {
    pub open spec fn feed_view(&self) -> FeedView {
        (self.matched@, self.records@, self.timestamp_extraction_failure_count as nat)
    }

    /// Runs one log line through the processor: guard, timestamp, match and, on a match, a
    /// record. Returns whether the line matched.
    pub fn feed_line(&mut self, line: &str) -> (r: Result<bool, ProcessError>)
        requires
            old(self).wf(),
            old(self).state.count < u64::MAX,
        ensures
            final(self).wf(),
            final(self).data_source == old(self).data_source,
            final(self).pattern == old(self).pattern,
            final(self).timestamp_format == old(self).timestamp_format,
            final(self).input_file_name == old(self).input_file_name,
            final(self).output_path == old(self).output_path,
            r is Err <==> feed_step(
                old(self).data_source,
                old(self).timestamp_format,
                old(self).pattern@,
                old(self).feed_view(),
                line@,
            ) is None,
            r is Ok ==> feed_step(
                old(self).data_source,
                old(self).timestamp_format,
                old(self).pattern@,
                old(self).feed_view(),
                line@,
            ) == Some(final(self).feed_view()),
            r matches Ok(b) ==> (b <==> final(self).matched@.len() == old(self).matched@.len() + 1),
    {
        match self.try_match(line) {
            Err(e) => Err(e),
            Ok((_, None)) => Ok(false),
            Ok((_, Some((caps, timestamp)))) => {
                self.process(caps, timestamp);
                Ok(true)
            },
        }
    }

    /// Runs every line through the processor, in order, and stops at the first error. Lines
    /// after the match count reaches its maximum are not read.
    pub fn process_lines(&mut self, lines: &Vec<String>) -> (r: Result<(), ProcessError>)
        requires
            old(self).wf(),
        ensures
            final(self).wf(),
            final(self).data_source == old(self).data_source,
            final(self).pattern == old(self).pattern,
            final(self).timestamp_format == old(self).timestamp_format,
            final(self).input_file_name == old(self).input_file_name,
            final(self).output_path == old(self).output_path,
            r is Err <==> feed_all(
                old(self).data_source,
                old(self).timestamp_format,
                old(self).pattern@,
                old(self).feed_view(),
                lines@,
            ) is None,
            r is Ok ==> feed_all(
                old(self).data_source,
                old(self).timestamp_format,
                old(self).pattern@,
                old(self).feed_view(),
                lines@,
            ) == Some(final(self).feed_view()),
    {
        let ghost ds = self.data_source;
        let ghost fmt = self.timestamp_format;
        let ghost pat = self.pattern@;
        let ghost v0 = self.feed_view();
        let mut i: usize = 0;
        assert(lines@.subrange(0, 0) =~= Seq::<String>::empty());
        while i < lines.len()
            invariant
                self.wf(),
                self.data_source == ds,
                ds == old(self).data_source,
                self.pattern@ == pat,
                pat == old(self).pattern@,
                self.pattern == old(self).pattern,
                self.timestamp_format == fmt,
                fmt == old(self).timestamp_format,
                self.input_file_name == old(self).input_file_name,
                self.output_path == old(self).output_path,
                v0 == old(self).feed_view(),
                i <= lines@.len(),
                feed_all(ds, fmt, pat, v0, lines@.subrange(0, i as int)) == Some(self.feed_view()),
            decreases lines@.len() - i,
        {
            assert(lines@.subrange(0, i + 1).drop_last() =~= lines@.subrange(0, i as int));
            if self.state.count == u64::MAX {
                proof {
                    lemma_feed_all_saturated(ds, fmt, pat, v0, lines@, i as int, lines@.len() as int);
                    assert(lines@.subrange(0, lines@.len() as int) =~= lines@);
                }
                return Ok(());
            }
            match self.feed_line(lines[i].as_str()) {
                Err(e) => {
                    proof {
                        lemma_feed_all_failed(ds, fmt, pat, v0, lines@, i + 1, lines@.len() as int);
                        assert(lines@.subrange(0, lines@.len() as int) =~= lines@);
                    }
                    return Err(e);
                },
                Ok(_) => {},
            }
            i = i + 1;
        }
        assert(lines@.subrange(0, i as int) =~= lines@);
        Ok(())
    }

    /// Feeds lines in order until `limit` of them have passed the guard (a preview of what the
    /// processor matches). Returns how many passed it.
    pub fn preview_lines(&mut self, lines: &Vec<String>, limit: usize) -> (r: Result<usize, ProcessError>)
        requires
            old(self).wf(),
        ensures
            final(self).wf(),
            final(self).data_source == old(self).data_source,
            final(self).timestamp_format == old(self).timestamp_format,
            r matches Ok(n) ==> n <= lines@.len(),
            r matches Ok(n) ==> (limit >= 1 ==> n <= limit),
            r matches Ok(n) ==> (n < limit && old(self).state.count + lines@.len() < u64::MAX
                ==> n == passed_count(*old(self), lines@)),
            r matches Ok(n) ==> exists|k: int|
                0 <= k <= lines@.len() && #[trigger] feed_all(
                    old(self).data_source,
                    old(self).timestamp_format,
                    old(self).pattern@,
                    old(self).feed_view(),
                    lines@.subrange(0, k),
                ) == Some(final(self).feed_view()) && n == passed_count(
                    *old(self),
                    lines@.subrange(0, k),
                ),
            feed_all(
                old(self).data_source,
                old(self).timestamp_format,
                old(self).pattern@,
                old(self).feed_view(),
                lines@,
            ) is Some ==> r is Ok,
    {
        let ghost ds = self.data_source;
        let ghost fmt = self.timestamp_format;
        let ghost pat = self.pattern@;
        let ghost v0 = self.feed_view();
        let mut matched: usize = 0;
        let mut i: usize = 0;
        assert(lines@.subrange(0, 0) =~= Seq::<String>::empty());
        while i < lines.len()
            invariant
                self.wf(),
                self.data_source == old(self).data_source,
                self.timestamp_format == old(self).timestamp_format,
                self.pattern == old(self).pattern,
                ds == old(self).data_source,
                fmt == old(self).timestamp_format,
                pat == old(self).pattern@,
                v0 == old(self).feed_view(),
                feed_all(ds, fmt, pat, v0, lines@.subrange(0, i as int)) == Some(self.feed_view()),
                i <= lines@.len(),
                matched <= i,
                limit >= 1 ==> matched < limit,
                matched == passed_count(*old(self), lines@.subrange(0, i as int)),
                self.state.count <= old(self).state.count + i,
            decreases lines@.len() - i,
        {
            if self.state.count == u64::MAX {
                return Ok(matched);
            }
            assert(lines@.subrange(0, i + 1).drop_last() =~= lines@.subrange(0, i as int));
            let passed = self.guard_matches(lines[i].as_str());
            match self.feed_line(lines[i].as_str()) {
                Err(e) => {
                    proof {
                        lemma_feed_all_failed(ds, fmt, pat, v0, lines@, i + 1, lines@.len() as int);
                        assert(lines@.subrange(0, lines@.len() as int) =~= lines@);
                    }
                    return Err(e);
                },
                Ok(_) => {},
            }
            if passed {
                matched = matched + 1;
            }
            i = i + 1;
            if matched >= limit {
                return Ok(matched);
            }
        }
        assert(lines@.subrange(0, i as int) =~= lines@);
        Ok(matched)
    }
}

/// Message shown for a scan that matched nothing.
pub const NO_MATCHES: &'static str = "No matches.";

/// How a value is listed: its decimal text, with `.0` added to whole numbers.
pub open spec fn listed_value_text(d: Decimal) -> Seq<char> {
    let t = decimal_text(d);
    if first_index_of(t, '.') < t.len() {
        t
    } else {
        t + ".0"@
    }
}

impl LineProcessor {
    /// What listing the extracted values shows: one value per record, or `NO_MATCHES` alone
    /// when nothing matched.
    pub fn value_listing(&self) -> (r: Vec<String>)
        ensures
            self.records@.len() == 0 ==> r@.len() == 1 && r@[0]@ == NO_MATCHES@,
            self.records@.len() > 0 ==> r@.len() == self.records@.len() && forall|i: int|
                0 <= i < self.records@.len() ==> (#[trigger] r@[i])@ == listed_value_text(
                    self.records@[i].value,
                ),
    {
        let mut out: Vec<String> = Vec::new();
        if self.records.len() == 0 {
            out.push(String::from_str(NO_MATCHES));
            return out;
        }
        let mut i: usize = 0;
        while i < self.records.len()
            invariant
                i <= self.records@.len(),
                out@.len() == i,
                forall|k: int| 0 <= k < i ==> (#[trigger] out@[k])@ == listed_value_text(self.records@[k].value),
            decreases self.records@.len() - i,
        {
            let mut t = self.records[i].value.to_text();
            if find_char(t.as_str(), '.') == t.unicode_len() {
                push_str(&mut t, ".0");
            }
            out.push(t);
            i = i + 1;
        }
        out
    }
}

} // verus!
