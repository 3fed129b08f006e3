//! Data sources: what a plotted line extracts from matching log lines, and the matching
//! pattern each one compiles to.

use crate::decimal::Decimal;
use crate::text::{contains_seq, push_str};
use vstd::prelude::*;

verus! {

#[verifier::external_type_specification]
#[verifier::external_body]
pub struct ExRegex(regex::Regex);

#[verifier::external_type_specification]
#[verifier::external_body]
pub struct ExRegexError(regex::Error);

/// Capture group count of a regular expression, the implicit whole-match group included;
/// `None` when the text is not a valid regular expression.
pub uninterp spec fn regex_groups(pattern: Seq<char>) -> Option<nat>;

/// Characters with a meaning in a regular expression.
pub open spec fn is_regex_meta(c: char) -> bool {
    c == '\\' || c == '.' || c == '+' || c == '*' || c == '?' || c == '(' || c == ')' || c == '|'
        || c == '[' || c == ']' || c == '{' || c == '}' || c == '^' || c == '$' || c == '#' || c
        == '&' || c == '-' || c == '~'
}

/// Text that matches `s` literally when used as a regular expression: each meta character
/// gets a backslash in front.
pub open spec fn regex_escaped(s: Seq<char>) -> Seq<char>
    decreases s.len(),
{
    if s.len() == 0 {
        Seq::empty()
    } else {
        regex_escaped(s.drop_last()) + (if is_regex_meta(s.last()) {
            seq!['\\', s.last()]
        } else {
            seq![s.last()]
        })
    }
}

/// Percent-encoding of `s` for use in a file name.
pub uninterp spec fn url_encoded(s: Seq<char>) -> Seq<char>;

/// Relies on `regex::Regex::new` and `Regex::captures_len`: the number of groups, at least one
/// (the whole match), of a valid pattern.
#[verifier::external_body]
fn pattern_groups(pattern: &str) -> (r: Option<usize>)
    ensures
        r matches Some(n) ==> n >= 1,
        r matches Some(n) ==> regex_groups(pattern@) == Some(n as nat),
        r is None ==> regex_groups(pattern@) is None,
{
    regex::Regex::new(pattern).ok().map(|re| re.captures_len())
}

/// Relies on `regex::Regex::new`: it succeeds exactly on valid patterns.
#[verifier::external_body]
fn regex_new(pattern: &str) -> (r: Result<regex::Regex, regex::Error>)
    ensures
        (r is Ok) == (regex_groups(pattern@) is Some),
{
    regex::Regex::new(pattern)
}

/// Relies on `regex::escape` (regex-syntax's `escape_into` and `is_meta_character`).
#[verifier::external_body]
fn escape(s: &str) -> (r: String)
    ensures
        r@ == regex_escaped(s@),
{
    regex::escape(s)
}

/// Relies on `urlencoding::encode`.
#[verifier::external_body]
fn url_encode(s: &str) -> (r: String)
    ensures
        r@ == url_encoded(s@),
{
    urlencoding::encode(s).into_owned()
}

/// The first two capture groups of a match: a value and an optional unit.
#[derive(Clone, Debug, PartialEq, Eq)]
pub struct Captures {
    pub value: Option<String>,
    pub unit: Option<String>,
}

/// The first two capture groups of the leftmost match of the regular expression `pattern` in
/// `hay`; `None` when nothing matches or the pattern is not valid.
pub uninterp spec fn regex_captures(pattern: Seq<char>, hay: Seq<char>) -> Option<
    (Option<Seq<char>>, Option<Seq<char>>),
>;

pub open spec fn captures_view(c: Captures) -> (Option<Seq<char>>, Option<Seq<char>>) {
    (opt_view(c.value), opt_view(c.unit))
}

/// Relies on `regex::Regex::new` and `Regex::captures`: the groups of the leftmost match, each a
/// piece of `hay`.
#[verifier::external_body]
pub(crate) fn pattern_captures(pattern: &str, hay: &str) -> (r: Option<Captures>)
    ensures
        r matches Some(c) ==> regex_captures(pattern@, hay@) == Some(captures_view(c)),
        r is None ==> regex_captures(pattern@, hay@) is None,
        r matches Some(c) ==> (c.value matches Some(v) ==> contains_seq(hay@, v@)),
        r matches Some(c) ==> (c.unit matches Some(u) ==> contains_seq(hay@, u@)),
{
    regex::Regex::new(pattern).ok()?.captures(hay).map(
        |c| Captures {
            value: c.get(1).map(|m| m.as_str().to_string()),
            unit: c.get(2).map(|m| m.as_str().to_string()),
        },
    )
}

#[derive(Clone, Debug, PartialEq, Eq)]
pub struct FieldCaptureSpec {
    pub guard: Option<String>,
    pub field: String,
}

#[derive(Clone, Debug, PartialEq, Eq)]
pub struct EventDeltaSpec {
    pub guard: Option<String>,
    pub pattern: String,
}

/// What a line plots.
#[derive(Clone, Debug, PartialEq, Eq)]
pub enum DataSource {
    /// A fixed `yvalue` each time `pattern` matches.
    EventValue { guard: Option<String>, pattern: String, yvalue: Decimal },
    /// The running count of matches of `pattern`.
    EventCount { guard: Option<String>, pattern: String },
    /// The time since the previous match of `pattern`.
    EventDelta(EventDeltaSpec),
    /// A numeric value named `field`, or captured by the regular expression `field`.
    FieldValue(FieldCaptureSpec),
}

/// Failures of pattern compilation.
#[derive(Debug)]
pub enum PatternError {
    /// The pattern is not a valid regular expression.
    Regex(regex::Error),
    /// A field regular expression with more than two capture groups.
    RegexCapturesGroupsInvalidCount(String),
}

pub fn copy_opt_string(o: &Option<String>) -> (r: Option<String>)
    ensures
        r == *o,
{
    match o {
        Some(s) => Some(s.clone()),
        None => None,
    }
}

pub open spec fn opt_view(o: Option<String>) -> Option<Seq<char>> {
    match o {
        Some(s) => Some(s@),
        None => None,
    }
}

/// The template a plain field name expands to: `\b<name>=([\d\.]+)(\w+)?`.
pub open spec fn field_template(escaped_name: Seq<char>) -> Seq<char> {
    "\\b"@ + escaped_name + "=([\\d\\.]+)(\\w+)?"@
}

/// Kinds of data source, without their payloads.
#[derive(Clone, Copy, Debug, PartialEq, Eq, Structural)]
pub enum SourceKind {
    FieldValue,
    EventValue,
    EventCount,
    EventDelta,
}

/// `value of <field>`, `presence of <pattern>`, `count of <pattern>` or `delta <pattern>`.
pub open spec fn default_title(ds: DataSource) -> Seq<char> {
    (match ds {
        DataSource::FieldValue(_) => "value of "@,
        DataSource::EventValue { .. } => "presence of "@,
        DataSource::EventCount { .. } => "count of "@,
        DataSource::EventDelta(_) => "delta "@,
    }) + ds.token_spec()
}

impl DataSource {
    pub fn new_event_value(guard: Option<String>, pattern: String, yvalue: Decimal) -> (r: Self)
        ensures
            r == (DataSource::EventValue { guard, pattern, yvalue }),
    {
        DataSource::EventValue { guard, pattern, yvalue }
    }

    pub fn new_event_count(guard: Option<String>, pattern: String) -> (r: Self)
        ensures
            r == (DataSource::EventCount { guard, pattern }),
    {
        DataSource::EventCount { guard, pattern }
    }

    pub fn new_event_delta(guard: Option<String>, pattern: String) -> (r: Self)
        ensures
            r == DataSource::EventDelta(EventDeltaSpec { guard, pattern }),
    {
        DataSource::EventDelta(EventDeltaSpec { guard, pattern })
    }

    pub fn new_plot_field(guard: Option<String>, field: String) -> (r: Self)
        ensures
            r == DataSource::FieldValue(FieldCaptureSpec { guard, field }),
    {
        DataSource::FieldValue(FieldCaptureSpec { guard, field })
    }

    /// A copy of the data source.
    pub fn copy(&self) -> (r: DataSource)
        ensures
            r == *self,
    {
        match self {
            DataSource::EventValue { guard, pattern, yvalue } => DataSource::EventValue {
                guard: copy_opt_string(guard),
                pattern: pattern.clone(),
                yvalue: *yvalue,
            },
            DataSource::EventCount { guard, pattern } => DataSource::EventCount {
                guard: copy_opt_string(guard),
                pattern: pattern.clone(),
            },
            DataSource::EventDelta(s) => DataSource::EventDelta(
                EventDeltaSpec { guard: copy_opt_string(&s.guard), pattern: s.pattern.clone() },
            ),
            DataSource::FieldValue(s) => DataSource::FieldValue(
                FieldCaptureSpec { guard: copy_opt_string(&s.guard), field: s.field.clone() },
            ),
        }
    }

    pub open spec fn kind_spec(&self) -> SourceKind {
        match self {
            DataSource::FieldValue(_) => SourceKind::FieldValue,
            DataSource::EventValue { .. } => SourceKind::EventValue,
            DataSource::EventCount { .. } => SourceKind::EventCount,
            DataSource::EventDelta(_) => SourceKind::EventDelta,
        }
    }

    pub fn kind(&self) -> (r: SourceKind)
        ensures
            r == self.kind_spec(),
    {
        match self {
            DataSource::FieldValue(_) => SourceKind::FieldValue,
            DataSource::EventValue { .. } => SourceKind::EventValue,
            DataSource::EventCount { .. } => SourceKind::EventCount,
            DataSource::EventDelta(_) => SourceKind::EventDelta,
        }
    }

    pub open spec fn guard_spec(&self) -> Option<String> {
        match self {
            DataSource::EventValue { guard, .. } => *guard,
            DataSource::EventCount { guard, .. } => *guard,
            DataSource::EventDelta(s) => s.guard,
            DataSource::FieldValue(s) => s.guard,
        }
    }

    /// The guard: a plain substring that a line must contain before any other work.
    pub fn guard(&self) -> (r: &Option<String>)
        ensures
            *r == self.guard_spec(),
    {
        match self {
            DataSource::EventValue { guard, .. } => guard,
            DataSource::EventCount { guard, .. } => guard,
            DataSource::EventDelta(s) => &s.guard,
            DataSource::FieldValue(s) => &s.guard,
        }
    }

    /// The field name or event pattern text, as the user wrote it.
    pub open spec fn token_spec(&self) -> Seq<char> {
        match self {
            DataSource::EventValue { pattern, .. } => pattern@,
            DataSource::EventCount { pattern, .. } => pattern@,
            DataSource::EventDelta(s) => s.pattern@,
            DataSource::FieldValue(s) => s.field@,
        }
    }

    fn token(&self) -> (r: &String)
        ensures
            r@ == self.token_spec(),
    {
        match self {
            DataSource::EventValue { pattern, .. } => pattern,
            DataSource::EventCount { pattern, .. } => pattern,
            DataSource::EventDelta(s) => &s.pattern,
            DataSource::FieldValue(s) => &s.field,
        }
    }

    /// The match token: the field name or the event pattern. Payloads such as `yvalue` are
    /// not part of it.
    pub fn match_token(&self) -> (r: String)
        ensures
            r@ == self.token_spec(),
    {
        self.token().clone()
    }

    /// The pattern text shown to the user.
    pub fn pattern(&self) -> (r: String)
        ensures
            r@ == self.token_spec(),
    {
        self.token().clone()
    }

    /// Whether a field regular expression is usable as given.
    pub open spec fn field_check(&self) -> Result<bool, ()> {
        match self {
            DataSource::FieldValue(s) => match regex_groups(s.field@) {
                Some(n) => if 2 <= n <= 3 {
                    Ok(true)
                } else if n > 3 {
                    Err(())
                } else {
                    Ok(false)
                },
                None => Ok(false),
            },
            _ => Ok(false),
        }
    }

    /// For a field source, `Ok(true)` when `field` is a regular expression with one or two
    /// capture groups, and an error when it has more than two. Anything else, and every event
    /// source, gives `Ok(false)`.
    pub fn validate_field_regex(&self) -> (r: Result<bool, PatternError>)
        ensures
            r matches Ok(b) ==> self.field_check() == Ok::<bool, ()>(b),
            r matches Err(e) ==> (e matches PatternError::RegexCapturesGroupsInvalidCount(f) && f@
                == self.token_spec()),
            r is Err == self.field_check() is Err,
    {
        if let DataSource::FieldValue(s) = self {
            if let Some(groups) = pattern_groups(s.field.as_str()) {
                let captures_len = groups - 1;
                if 1 <= captures_len && captures_len <= 2 {
                    return Ok(true);
                }
                if captures_len > 2 {
                    return Err(PatternError::RegexCapturesGroupsInvalidCount(s.field.clone()));
                }
            }
        }
        Ok(false)
    }

    /// The regular expression that lines are matched with: event patterns as given; a field
    /// as given when it is a usable regular expression, else the `field_template` of its name.
    pub open spec fn regex_pattern_spec(&self) -> Seq<char> {
        match self {
            DataSource::FieldValue(s) => if self.field_check() == Ok::<bool, ()>(true) {
                s.field@
            } else {
                field_template(regex_escaped(s.field@))
            },
            _ => self.token_spec(),
        }
    }

    pub fn regex_pattern(&self) -> (r: String)
        ensures
            r@ == self.regex_pattern_spec(),
    {
        match self {
            DataSource::FieldValue(s) => {
                let valid = match self.validate_field_regex() {
                    Ok(b) => b,
                    Err(_) => false,
                };
                if valid {
                    s.field.clone()
                } else {
                    let mut r = String::from_str("\\b");
                    let esc = escape(s.field.as_str());
                    push_str(&mut r, esc.as_str());
                    push_str(&mut r, "=([\\d\\.]+)(\\w+)?");
                    r
                }
            },
            _ => self.token().clone(),
        }
    }

    /// Compiles the matching pattern; a field regular expression with more than two capture
    /// groups is refused first.
    pub fn compile_regex(&self) -> (r: Result<regex::Regex, PatternError>)
        ensures
            self.field_check() is Err ==> r matches Err(PatternError::RegexCapturesGroupsInvalidCount(_)),
            self.field_check() is Ok ==> ((r is Ok) == (regex_groups(self.regex_pattern_spec()) is Some)),
            self.field_check() is Ok ==> (r is Err ==> r matches Err(PatternError::Regex(_))),
    {
        match self.validate_field_regex() {
            Err(e) => return Err(e),
            Ok(_) => {},
        }
        let p = self.regex_pattern();
        match regex_new(p.as_str()) {
            Ok(re) => Ok(re),
            Err(e) => Err(PatternError::Regex(e)),
        }
    }

    /// Tag that stands for the pattern in cache file names.
    pub fn regex_filename_tag(&self) -> (r: String)
        ensures
            r@ == url_encoded(self.regex_pattern_spec()),
    {
        let p = self.regex_pattern();
        url_encode(p.as_str())
    }

    /// Count and delta columns do not depend on what was captured, only on which lines matched
    /// and when: such lines can read another line's cache file.
    pub open spec fn is_shareable(&self) -> bool {
        self is EventCount || self is EventDelta
    }

    pub fn can_be_shared(&self) -> (r: bool)
        ensures
            r == self.is_shareable(),
    {
        match self {
            DataSource::EventCount { .. } | DataSource::EventDelta(_) => true,
            _ => false,
        }
    }

    /// Cache file column that the line plots.
    pub fn csv_data_column_for_plot(&self) -> (r: &'static str)
        ensures
            r@ == (match self {
                DataSource::EventCount { .. } => "count"@,
                DataSource::EventDelta(_) => "delta"@,
                _ => "value"@,
            }),
    {
        match self {
            DataSource::FieldValue(_) | DataSource::EventValue { .. } => "value",
            DataSource::EventCount { .. } => "count",
            DataSource::EventDelta(_) => "delta",
        }
    }

    /// Default title of a line.
    pub fn title(&self) -> (r: String)
        ensures
            r@ == default_title(*self),
    {
        let mut r = match self {
            DataSource::FieldValue(_) => String::from_str("value of "),
            DataSource::EventValue { .. } => String::from_str("presence of "),
            DataSource::EventCount { .. } => String::from_str("count of "),
            DataSource::EventDelta(_) => String::from_str("delta "),
        };
        push_str(&mut r, self.token().as_str());
        r
    }
}

} // verus!
