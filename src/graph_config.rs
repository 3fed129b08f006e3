//! User-facing options: styles, axes, panel alignment, the time range override, and the
//! contexts that carry input files and output choices.

use crate::align_ranges::{PanelAlignmentMode, Range, RangeError};
use crate::cache_files::{dir_prefix_len, dir_prefix_len_of, dot_prefix_len, dot_prefix_len_of, join, join_path};
use crate::utils::{cache_dir_spec, get_cache_dir_inner};
use crate::decimal::{number_of_text, parse_decimal, pow10, Decimal};
use crate::text::{find_char, first_index_of, push_str, substring, trim, trimmed};
use crate::timestamp::{moved_by, datetime_whole, div_toward_zero, parse_datetime_exact, parse_time_exact, placeholder_datetime, time_whole, within_dates, DateTime, TimestampFormat, NANOS_PER_SEC};
use vstd::prelude::*;

verus! {

#[derive(Clone, Copy, Debug, PartialEq, Eq, Structural)]
pub enum AxisScale {
    Linear,
    Log,
}

#[derive(Clone, Copy, Debug, PartialEq, Eq, Structural)]
pub enum YAxis {
    Y,
    Y2,
}

#[derive(Clone, Copy, Debug, PartialEq, Eq, Structural)]
pub enum Color {
    Red,
    Blue,
    DarkGreen,
    Purple,
    Cyan,
    Goldenrod,
    Brown,
    Olive,
    Navy,
    Violet,
    Coral,
    Salmon,
    SteelBlue,
    DarkMagenta,
    DarkCyan,
    DarkYellow,
    DarkTurquoise,
    Yellow,
    Black,
    Magenta,
    Orange,
    Green,
    DarkOrange,
}

#[derive(Clone, Copy, Debug, PartialEq, Eq, Structural)]
pub enum MarkerType {
    Dot,
    TriangleFilled,
    SquareFilled,
    DiamondFilled,
    Plus,
    Cross,
    Circle,
    X,
    Triangle,
    Square,
    Diamond,
}

#[derive(Clone, Copy, Debug, PartialEq, Eq, Structural)]
pub enum PlotStyle {
    Points,
    Steps,
    LinesPoints,
    Lines,
}

#[derive(Clone, Copy, Debug, PartialEq, Eq, Structural)]
pub enum DashStyle {
    Solid,
    Dashed,
    Dotted,
    DashDot,
    LongDash,
}

/// Alignment of panels' time windows as the user chooses it.
#[derive(Clone, Copy, Debug, PartialEq, Eq, Structural)]
pub enum PanelAlignmentModeArg {
    SharedFull,
    PerPanel,
    SharedOverlap,
}

pub const COLOR_COUNT: usize = 23;

pub const MARKER_COUNT: usize = 11;

pub const DASH_COUNT: usize = 5;

impl Color {
    /// The colors in declaration order.
    pub open spec fn at_spec(i: int) -> Color {
        if i == 0 { Color::Red }
        else if i == 1 { Color::Blue }
        else if i == 2 { Color::DarkGreen }
        else if i == 3 { Color::Purple }
        else if i == 4 { Color::Cyan }
        else if i == 5 { Color::Goldenrod }
        else if i == 6 { Color::Brown }
        else if i == 7 { Color::Olive }
        else if i == 8 { Color::Navy }
        else if i == 9 { Color::Violet }
        else if i == 10 { Color::Coral }
        else if i == 11 { Color::Salmon }
        else if i == 12 { Color::SteelBlue }
        else if i == 13 { Color::DarkMagenta }
        else if i == 14 { Color::DarkCyan }
        else if i == 15 { Color::DarkYellow }
        else if i == 16 { Color::DarkTurquoise }
        else if i == 17 { Color::Yellow }
        else if i == 18 { Color::Black }
        else if i == 19 { Color::Magenta }
        else if i == 20 { Color::Orange }
        else if i == 21 { Color::Green }
        else { Color::DarkOrange }
    }

    pub fn at(i: usize) -> (r: Color)
        requires
            i < COLOR_COUNT,
        ensures
            r == Color::at_spec(i as int),
    {
        if i == 0 { Color::Red }
        else if i == 1 { Color::Blue }
        else if i == 2 { Color::DarkGreen }
        else if i == 3 { Color::Purple }
        else if i == 4 { Color::Cyan }
        else if i == 5 { Color::Goldenrod }
        else if i == 6 { Color::Brown }
        else if i == 7 { Color::Olive }
        else if i == 8 { Color::Navy }
        else if i == 9 { Color::Violet }
        else if i == 10 { Color::Coral }
        else if i == 11 { Color::Salmon }
        else if i == 12 { Color::SteelBlue }
        else if i == 13 { Color::DarkMagenta }
        else if i == 14 { Color::DarkCyan }
        else if i == 15 { Color::DarkYellow }
        else if i == 16 { Color::DarkTurquoise }
        else if i == 17 { Color::Yellow }
        else if i == 18 { Color::Black }
        else if i == 19 { Color::Magenta }
        else if i == 20 { Color::Orange }
        else if i == 21 { Color::Green }
        else { Color::DarkOrange }
    }
}

impl MarkerType {
    /// The marker types in declaration order.
    pub open spec fn at_spec(i: int) -> MarkerType {
        if i == 0 { MarkerType::Dot }
        else if i == 1 { MarkerType::TriangleFilled }
        else if i == 2 { MarkerType::SquareFilled }
        else if i == 3 { MarkerType::DiamondFilled }
        else if i == 4 { MarkerType::Plus }
        else if i == 5 { MarkerType::Cross }
        else if i == 6 { MarkerType::Circle }
        else if i == 7 { MarkerType::X }
        else if i == 8 { MarkerType::Triangle }
        else if i == 9 { MarkerType::Square }
        else { MarkerType::Diamond }
    }

    pub fn at(i: usize) -> (r: MarkerType)
        requires
            i < MARKER_COUNT,
        ensures
            r == MarkerType::at_spec(i as int),
    {
        if i == 0 { MarkerType::Dot }
        else if i == 1 { MarkerType::TriangleFilled }
        else if i == 2 { MarkerType::SquareFilled }
        else if i == 3 { MarkerType::DiamondFilled }
        else if i == 4 { MarkerType::Plus }
        else if i == 5 { MarkerType::Cross }
        else if i == 6 { MarkerType::Circle }
        else if i == 7 { MarkerType::X }
        else if i == 8 { MarkerType::Triangle }
        else if i == 9 { MarkerType::Square }
        else { MarkerType::Diamond }
    }
}

impl DashStyle {
    /// The dash styles in declaration order.
    pub open spec fn at_spec(i: int) -> DashStyle {
        if i == 0 { DashStyle::Solid }
        else if i == 1 { DashStyle::Dashed }
        else if i == 2 { DashStyle::Dotted }
        else if i == 3 { DashStyle::DashDot }
        else { DashStyle::LongDash }
    }

    pub fn at(i: usize) -> (r: DashStyle)
        requires
            i < DASH_COUNT,
        ensures
            r == DashStyle::at_spec(i as int),
    {
        if i == 0 { DashStyle::Solid }
        else if i == 1 { DashStyle::Dashed }
        else if i == 2 { DashStyle::Dotted }
        else if i == 3 { DashStyle::DashDot }
        else { DashStyle::LongDash }
    }
}

impl PanelAlignmentModeArg {
    /// The alignment a choice stands for; no choice means `PerPanel`.
    pub fn to_mode(arg: Option<PanelAlignmentModeArg>) -> (r: PanelAlignmentMode)
        ensures
            r == (match arg {
                Some(PanelAlignmentModeArg::SharedOverlap) => PanelAlignmentMode::SharedOverlap,
                Some(PanelAlignmentModeArg::SharedFull) => PanelAlignmentMode::SharedFull,
                _ => PanelAlignmentMode::PerPanel,
            }),
    {
        match arg {
            Some(PanelAlignmentModeArg::SharedOverlap) => PanelAlignmentMode::SharedOverlap,
            Some(PanelAlignmentModeArg::SharedFull) => PanelAlignmentMode::SharedFull,
            _ => PanelAlignmentMode::PerPanel,
        }
    }
}

/// The output files, by backend.
#[derive(Debug, PartialEq, Eq)]
pub enum OutputFilePaths {
    /// The image and the gnuplot script.
    Gnuplot(String, String),
    /// The HTML page.
    Plotly(String),
}

/// Input files and how to read them.
#[derive(Clone, Debug, PartialEq, Eq)]
pub struct InputFilesContext {
    pub input: Vec<String>,
    pub cache_dir: Option<String>,
    pub timestamp_format: Option<TimestampFormat>,
    pub force_csv_regen: bool,
    pub ignore_invalid_timestamps: bool,
}

impl InputFilesContext {
    pub fn new_with_input(input: Vec<String>) -> (r: Self)
        ensures
            r.input == input,
            r.cache_dir is None,
            r.timestamp_format is None,
            !r.force_csv_regen,
            !r.ignore_invalid_timestamps,
    {
        InputFilesContext {
            input,
            cache_dir: None,
            timestamp_format: None,
            force_csv_regen: false,
            ignore_invalid_timestamps: false,
        }
    }

    pub fn cache_dir(&self) -> (r: &Option<String>)
        ensures
            *r == self.cache_dir,
    {
        &self.cache_dir
    }

    /// The timestamp format, the default one when none was given.
    pub fn timestamp_format(&self) -> (r: TimestampFormat)
        ensures
            self.timestamp_format matches Some(f) ==> r == f,
            self.timestamp_format is None ==> r is DateTime && r.view_str()
                == crate::timestamp::DEFAULT_TIMESTAMP_STR@,
    {
        match &self.timestamp_format {
            Some(f) => f.copy(),
            None => TimestampFormat::default_format(),
        }
    }

    pub fn input(&self) -> (r: &Vec<String>)
        ensures
            *r == self.input,
    {
        &self.input
    }

    pub fn force_csv_regen(&self) -> (r: bool)
        ensures
            r == self.force_csv_regen,
    {
        self.force_csv_regen
    }

    pub fn ignore_invalid_timestamps(&self) -> (r: bool)
        ensures
            r == self.ignore_invalid_timestamps,
    {
        self.ignore_invalid_timestamps
    }
}

/// Options of the match preview.
#[derive(Clone, Debug, PartialEq, Eq)]
pub struct SharedMatchPreviewContext {
    pub input: String,
    /// Lines to match against the guard before stopping.
    pub count: usize,
    pub timestamp_format: Option<TimestampFormat>,
}

impl SharedMatchPreviewContext {
    /// The timestamp format, the default one when none was given.
    pub fn timestamp_format(&self) -> (r: TimestampFormat)
        ensures
            self.timestamp_format matches Some(f) ==> r == f,
            self.timestamp_format is None ==> r is DateTime && r.view_str()
                == crate::timestamp::DEFAULT_TIMESTAMP_STR@,
    {
        match &self.timestamp_format {
            Some(f) => f.copy(),
            None => TimestampFormat::default_format(),
        }
    }
}

/// The most fraction digits a relative time range bound may have.
pub const MAX_FRACTION_DIGITS: i32 = 18;

/// `10^-d.exponent`: the denominator of `d` when its exponent is not positive.
pub open spec fn denominator(d: Decimal) -> int {
    pow10((-d.exponent) as nat)
}

/// `d` is a fraction in `[0, 1]` with at most `MAX_FRACTION_DIGITS` fraction digits.
pub open spec fn is_unit_fraction(d: Decimal) -> bool {
    &&& -MAX_FRACTION_DIGITS <= d.exponent <= 0
    &&& 0 <= d.mantissa <= denominator(d)
}

/// `a < b` as numbers.
pub open spec fn fraction_less(a: Decimal, b: Decimal) -> bool {
    a.mantissa * denominator(b) < b.mantissa * denominator(a)
}

/// `s` holds exactly one comma.
pub open spec fn has_one_comma(s: Seq<char>) -> bool {
    let c = first_index_of(s, ',') as int;
    c < s.len() && first_index_of(s.subrange(c + 1, s.len() as int), ',') == s.len() - c - 1
}

/// What `start,end` reads as: `None` unless it has exactly one comma; two numbers (each part
/// trimmed) must be fractions in `[0, 1]` with `start < end` and give `Ok`; any other pair is
/// two timestamp texts, `Err`.
pub open spec fn time_range_text(s: Seq<char>) -> Option<Result<(Decimal, Decimal), (Seq<char>, Seq<char>)>> {
    if !has_one_comma(s) {
        None
    } else {
        let c = first_index_of(s, ',') as int;
        let a = trimmed(s.subrange(0, c));
        let b = trimmed(s.subrange(c + 1, s.len() as int));
        match (number_of_text(a), number_of_text(b)) {
            (Some(x), Some(y)) => if is_unit_fraction(x) && is_unit_fraction(y) && fraction_less(x, y) {
                Some(Ok((x, y)))
            } else {
                None
            },
            _ => Some(Err((a, b))),
        }
    }
}

/// A user override of the plotted time range.
#[derive(Clone, Debug, PartialEq, Eq)]
pub enum TimeRangeArg {
    /// Fractions of the whole data range, `start < end`, both in `[0, 1]`.
    Relative(Decimal, Decimal),
    /// Two timestamps in the user's timestamp format.
    AbsoluteDateTime(String, String),
}

fn pow10_exec(k: u32) -> (r: i128)
    requires
        k <= 18,
    ensures
        r == pow10(k as nat),
        1 <= r <= 1_000_000_000_000_000_000i128,
{
    let mut r: i128 = 1;
    let mut i: u32 = 0;
    while i < k
        invariant
            i <= k <= 18,
            r == pow10(i as nat),
            r <= pow10(i as nat),
            1 <= r,
            r * pow10((18 - i) as nat) == pow10(18),
        decreases k - i,
    {
        proof {
            crate::decimal::lemma_pow10_pos((17 - i) as nat);
            assert(pow10((18 - i) as nat) == 10 * pow10((17 - i) as nat));
            assert((r * 10) * pow10((17 - i) as nat) == pow10(18)) by (nonlinear_arith)
                requires
                    r * pow10((18 - i) as nat) == pow10(18),
                    pow10((18 - i) as nat) == 10 * pow10((17 - i) as nat),
            ;
            reveal_with_fuel(pow10, 19);
            assert(pow10(18) == 1_000_000_000_000_000_000int);
            assert(r * 10 <= pow10(18)) by (nonlinear_arith)
                requires
                    (r * 10) * pow10((17 - i) as nat) == pow10(18),
                    pow10((17 - i) as nat) >= 1,
                    r >= 1,
            ;
        }
        r = r * 10;
        i = i + 1;
    }
    proof {
        reveal_with_fuel(pow10, 19);
        crate::decimal::lemma_pow10_pos((18 - i) as nat);
        assert(r <= pow10(18)) by (nonlinear_arith)
            requires
                r * pow10((18 - i) as nat) == pow10(18),
                pow10((18 - i) as nat) >= 1,
                r >= 1,
        ;
    }
    r
}

/// `d` as a bound of a relative time range.
fn unit_fraction(d: Decimal) -> (r: bool)
    ensures
        r == is_unit_fraction(d),
{
    if d.exponent > 0 || d.exponent < -MAX_FRACTION_DIGITS {
        return false;
    }
    let den = pow10_exec((-d.exponent) as u32);
    0 <= d.mantissa && d.mantissa <= den
}

fn less_fraction(a: Decimal, b: Decimal) -> (r: bool)
    requires
        is_unit_fraction(a),
        is_unit_fraction(b),
    ensures
        r == fraction_less(a, b),
{
    let da = pow10_exec((-a.exponent) as u32);
    let db = pow10_exec((-b.exponent) as u32);
    assert(a.mantissa * db <= 1_000_000_000_000_000_000_000_000_000_000_000_000int) by (nonlinear_arith)
        requires
            0 <= a.mantissa <= da,
            da <= 1_000_000_000_000_000_000i128,
            1 <= db <= 1_000_000_000_000_000_000i128,
    ;
    assert(b.mantissa * da <= 1_000_000_000_000_000_000_000_000_000_000_000_000int) by (nonlinear_arith)
        requires
            0 <= b.mantissa <= db,
            db <= 1_000_000_000_000_000_000i128,
            1 <= da <= 1_000_000_000_000_000_000i128,
    ;
    assert(0 <= a.mantissa * db) by (nonlinear_arith)
        requires
            0 <= a.mantissa,
            1 <= db,
    ;
    assert(0 <= b.mantissa * da) by (nonlinear_arith)
        requires
            0 <= b.mantissa,
            1 <= da,
    ;
    a.mantissa * db < b.mantissa * da
}

/// `n / d` rounded to the nearest integer, halves away from zero.
pub open spec fn div_round(n: int, d: int) -> int {
    if n >= 0 {
        (2 * n + d) / (2 * d)
    } else {
        -((2 * (-n) + d) / (2 * d))
    }
}

/// Whole microseconds of the data range, rounded toward zero; zero when that does not fit an
/// `i64`.
pub open spec fn range_micros(total: Range) -> int {
    let m = div_toward_zero(total.1.instant() - total.0.instant(), 1000);
    if i64::MIN <= m <= i64::MAX {
        m
    } else {
        0
    }
}

/// Microseconds from the start of the data range to the fraction `f` of it.
pub open spec fn offset_micros(total: Range, f: Decimal) -> int {
    div_round(range_micros(total) * f.mantissa, denominator(f))
}

/// Two timestamps read with a format (`f`, date-bearing when `is_date`); a time of day lands
/// on the placeholder date. `None` when either text does not parse.
pub open spec fn absolute_window_in(x: Seq<char>, y: Seq<char>, is_date: bool, f: Seq<char>) -> Option<Range> {
    if is_date {
        match (datetime_whole(x, f), datetime_whole(y, f)) {
            (Some(s), Some(e)) => Some((s, e)),
            _ => None,
        }
    } else {
        match (time_whole(x, f), time_whole(y, f)) {
            (Some(s), Some(e)) => Some((placeholder_datetime(s), placeholder_datetime(e))),
            _ => None,
        }
    }
}

pub open spec fn absolute_window(x: Seq<char>, y: Seq<char>, format: TimestampFormat) -> Option<Range> {
    absolute_window_in(x, y, format is DateTime, format.view_str())
}

proof fn lemma_range_micros(total: Range)
    ensures
        total.0.instant() <= total.1.instant() ==> 0 <= range_micros(total) * 1000 <= total.1.instant()
            - total.0.instant(),
        total.1.instant() < total.0.instant() ==> total.1.instant() - total.0.instant()
            <= range_micros(total) * 1000 <= 0,
{
    let d = total.1.instant() - total.0.instant();
    if d >= 0 {
        assert(0 <= (d / 1000) * 1000 <= d) by (nonlinear_arith)
            requires
                d >= 0,
        ;
    } else {
        assert(0 <= ((-d) / 1000) * 1000 <= -d) by (nonlinear_arith)
            requires
                d < 0,
        ;
    }
}

proof fn lemma_offset_bounds(m: int, f: Decimal)
    requires
        is_unit_fraction(f),
    ensures
        m >= 0 ==> 0 <= div_round(m * f.mantissa, denominator(f)) <= m,
        m < 0 ==> m <= div_round(m * f.mantissa, denominator(f)) <= 0,
{
    let den = denominator(f);
    crate::decimal::lemma_pow10_pos((-f.exponent) as nat);
    let k = f.mantissa as int;
    if m >= 0 {
        assert(0 <= m * k <= m * den) by (nonlinear_arith)
            requires
                m >= 0,
                0 <= k <= den,
        ;
        let n = m * k;
        assert(0 <= (2 * n + den) / (2 * den) <= m) by (nonlinear_arith)
            requires
                0 <= n <= m * den,
                den >= 1,
        ;
    } else {
        assert(m * den <= m * k <= 0) by (nonlinear_arith)
            requires
                m < 0,
                0 <= k <= den,
        ;
        let n = m * k;
        if n < 0 {
            assert(0 <= (2 * (-n) + den) / (2 * den) <= -m) by (nonlinear_arith)
                requires
                    0 < -n <= -(m * den),
                    den >= 1,
                    m < 0,
            ;
        } else {
            assert((2 * n + den) / (2 * den) == 0) by (nonlinear_arith)
                requires
                    n == 0,
                    den >= 1,
            ;
        }
    }
}

proof fn lemma_offset_order(m: int, a: Decimal, b: Decimal)
    requires
        m >= 0,
        is_unit_fraction(a),
        is_unit_fraction(b),
        fraction_less(a, b),
    ensures
        div_round(m * a.mantissa, denominator(a)) <= div_round(m * b.mantissa, denominator(b)),
{
    let da = denominator(a);
    let db = denominator(b);
    crate::decimal::lemma_pow10_pos((-a.exponent) as nat);
    crate::decimal::lemma_pow10_pos((-b.exponent) as nat);
    let ka = a.mantissa as int;
    let kb = b.mantissa as int;
    let na = m * ka;
    let nb = m * kb;
    assert(na * db <= nb * da) by (nonlinear_arith)
        requires
            na == m * ka,
            nb == m * kb,
            m >= 0,
            ka * db < kb * da,
    ;
    assert(na >= 0 && nb >= 0) by (nonlinear_arith)
        requires
            na == m * ka,
            nb == m * kb,
            m >= 0,
            ka >= 0,
            kb >= 0,
    ;
    let qa = (2 * na + da) / (2 * da);
    let qb = (2 * nb + db) / (2 * db);
    assert(qa * (2 * da) <= 2 * na + da) by (nonlinear_arith)
        requires
            qa == (2 * na + da) / (2 * da),
            da >= 1,
            na >= 0,
    ;
    assert(2 * nb + db < (qb + 1) * (2 * db)) by (nonlinear_arith)
        requires
            qb == (2 * nb + db) / (2 * db),
            db >= 1,
            nb >= 0,
    ;
    assert(qa <= qb) by (nonlinear_arith)
        requires
            qa * (2 * da) <= 2 * na + da,
            2 * nb + db < (qb + 1) * (2 * db),
            na * db <= nb * da,
            da >= 1,
            db >= 1,
    ;
}

impl TimeRangeArg {
    pub open spec fn wf(self) -> bool {
        match self {
            TimeRangeArg::Relative(a, b) => is_unit_fraction(a) && is_unit_fraction(b)
                && fraction_less(a, b),
            TimeRangeArg::AbsoluteDateTime(_, _) => true,
        }
    }

    /// Reads `start,end`: two fractions in `[0, 1]` with `start < end`, or else two
    /// timestamps. Anything but exactly two comma-separated values is an error, and so are two
    /// numbers that are not such fractions.
    pub fn parse_time_range(s: &str) -> (r: Result<TimeRangeArg, String>)
        ensures
            r is Ok <==> time_range_text(s@) is Some,
            r matches Ok(TimeRangeArg::Relative(x, y)) ==> time_range_text(s@) == Some(
                Ok::<(Decimal, Decimal), (Seq<char>, Seq<char>)>((x, y)),
            ),
            r matches Ok(TimeRangeArg::AbsoluteDateTime(x, y)) ==> time_range_text(s@) == Some(
                Err::<(Decimal, Decimal), (Seq<char>, Seq<char>)>((x@, y@)),
            ),
            r matches Ok(t) ==> t.wf(),
    {
        let n = s.unicode_len();
        let c = find_char(s, ',');
        if c == n {
            return Err(String::from_str("Expected two values separated by a comma"));
        }
        let first = substring(s, 0, c);
        let rest = substring(s, c + 1, n);
        if find_char(rest.as_str(), ',') != rest.unicode_len() {
            return Err(String::from_str("Expected two values separated by a comma"));
        }
        let a = trim(first.as_str());
        let b = trim(rest.as_str());
        match (parse_decimal(a.as_str()), parse_decimal(b.as_str())) {
            (Some(x), Some(y)) => {
                if !unit_fraction(x) || !unit_fraction(y) || !less_fraction(x, y) {
                    return Err(
                        String::from_str(
                            "Relative range must be between 0.0 and 1.0, and start < end",
                        ),
                    );
                }
                Ok(TimeRangeArg::Relative(x, y))
            },
            _ => Ok(TimeRangeArg::AbsoluteDateTime(a, b)),
        }
    }

    /// The window this override stands for: fractions of `total` (scaled in whole
    /// microseconds, rounded), or two timestamps read with `format` (a time-only format puts
    /// them on the placeholder date of time-only cache rows).
    pub fn resolve(&self, total: Range, format: &TimestampFormat) -> (r: Result<Range, RangeError>)
        requires
            self.wf(),
            total.0.wf(),
            total.1.wf(),
        ensures
            r matches Ok(w) ==> w.0.wf() && w.1.wf(),
            self is Relative ==> (within_dates(total.0.instant()) && within_dates(total.1.instant())
                ==> r is Ok),
            r matches Ok(w) ==> (self is Relative && total.0.time.nano < NANOS_PER_SEC
                && total.0.instant() <= total.1.instant() ==> total.0.instant() <= w.0.instant()
                <= w.1.instant() <= total.1.instant()),
            self matches TimeRangeArg::AbsoluteDateTime(x, y) ==> (r is Ok <==> absolute_window(
                x@,
                y@,
                *format,
            ) is Some),
            self matches TimeRangeArg::AbsoluteDateTime(x, y) ==> (r matches Ok(w) ==> Some(w)
                == absolute_window(x@, y@, *format)),
            self matches TimeRangeArg::AbsoluteDateTime(x, y) ==> (r matches Err(e) ==> e is CsvDateParseError),
            r matches Ok(w) ==> (self matches TimeRangeArg::Relative(a, b) ==> moved_by(
                total.0,
                w.0,
                offset_micros(total, *a) * 1000,
            ) && moved_by(total.0, w.1, offset_micros(total, *b) * 1000)),
    {
        match self {
            TimeRangeArg::Relative(a, b) => {
                let micros = range_micros_exec(&total);
                let sa = scale_micros(micros, *a);
                let sb = scale_micros(micros, *b);
                proof {
                    lemma_range_micros(total);
                    lemma_offset_bounds(micros as int, *a);
                    lemma_offset_bounds(micros as int, *b);
                    if micros >= 0 {
                        lemma_offset_order(micros as int, *a, *b);
                    }
                    let t0 = total.0.instant();
                    let t1 = total.1.instant();
                    if micros >= 0 {
                        assert(0 <= sa * 1000 <= micros * 1000) by (nonlinear_arith)
                            requires
                                0 <= sa <= micros,
                        ;
                        assert(0 <= sb * 1000 <= micros * 1000) by (nonlinear_arith)
                            requires
                                0 <= sb <= micros,
                        ;
                        assert(sa * 1000 <= sb * 1000) by (nonlinear_arith)
                            requires
                                sa <= sb,
                        ;
                    } else {
                        assert(micros * 1000 <= sa * 1000 <= 0) by (nonlinear_arith)
                            requires
                                micros <= sa <= 0,
                        ;
                        assert(micros * 1000 <= sb * 1000 <= 0) by (nonlinear_arith)
                            requires
                                micros <= sb <= 0,
                        ;
                    }
                }
                let start = match total.0.plus_micros(sa) {
                    Some(t) => t,
                    None => return Err(RangeError::Generic(String::from_str("time range out of bounds"))),
                };
                let end = match total.0.plus_micros(sb) {
                    Some(t) => t,
                    None => return Err(RangeError::Generic(String::from_str("time range out of bounds"))),
                };
                Ok((start, end))
            },
            TimeRangeArg::AbsoluteDateTime(x, y) => match format {
                TimestampFormat::DateTime(fmt) => {
                    let start = match parse_datetime_exact(x.as_str(), fmt.as_str()) {
                        Some(d) => d,
                        None => return Err(RangeError::CsvDateParseError(x.clone())),
                    };
                    let end = match parse_datetime_exact(y.as_str(), fmt.as_str()) {
                        Some(d) => d,
                        None => return Err(RangeError::CsvDateParseError(y.clone())),
                    };
                    Ok((start, end))
                },
                TimestampFormat::Time(fmt) => {
                    let t0 = match parse_time_exact(x.as_str(), fmt.as_str()) {
                        Some(t) => t,
                        None => return Err(RangeError::CsvDateParseError(x.clone())),
                    };
                    let t1 = match parse_time_exact(y.as_str(), fmt.as_str()) {
                        Some(t) => t,
                        None => return Err(RangeError::CsvDateParseError(y.clone())),
                    };
                    Ok((DateTime::placeholder_day_with(t0), DateTime::placeholder_day_with(t1)))
                },
            },
        }
    }
}

fn range_micros_exec(total: &Range) -> (r: i64)
    requires
        total.0.wf(),
        total.1.wf(),
    ensures
        r == range_micros(*total),
{
    let a: i128 = total.0.day_number as i128 * 86_400_000_000_000i128 + total.0.time.secs as i128
        * 1_000_000_000i128 + total.0.time.nano as i128;
    let b: i128 = total.1.day_number as i128 * 86_400_000_000_000i128 + total.1.time.secs as i128
        * 1_000_000_000i128 + total.1.time.nano as i128;
    let diff = b - a;
    let m: i128 = if diff >= 0 {
        diff / 1000
    } else {
        -((-diff) / 1000)
    };
    if m < i64::MIN as i128 || m > i64::MAX as i128 {
        0
    } else {
        m as i64
    }
}

fn scale_micros(micros: i64, f: Decimal) -> (r: i64)
    requires
        is_unit_fraction(f),
    ensures
        r == div_round(micros as int * f.mantissa, denominator(f)),
{
    let den = pow10_exec((-f.exponent) as u32);
    assert(-9_223_372_036_854_775_808int * den <= micros as int * f.mantissa <= 9_223_372_036_854_775_807int * den) by (nonlinear_arith)
        requires
            0 <= f.mantissa <= den,
            i64::MIN <= micros <= i64::MAX,
    ;
    assert(-9_223_372_036_854_775_808int * den >= -9_223_372_036_854_775_808int * 1_000_000_000_000_000_000int) by (nonlinear_arith)
        requires
            1 <= den <= 1_000_000_000_000_000_000int,
    ;
    assert(9_223_372_036_854_775_807int * den <= 9_223_372_036_854_775_807int * 1_000_000_000_000_000_000int) by (nonlinear_arith)
        requires
            1 <= den <= 1_000_000_000_000_000_000int,
    ;
    let p: i128 = micros as i128 * f.mantissa;
    let q: i128 = if p >= 0 {
        (2 * p + den) / (2 * den)
    } else {
        -((2 * (-p) + den) / (2 * den))
    };
    assert(-9_223_372_036_854_775_808i128 <= q <= 9_223_372_036_854_775_807i128) by (nonlinear_arith)
        requires
            q == (if p >= 0 { (2 * p + den) / (2 * den) } else { -((2 * (-p) + den) / (2 * den)) }),
            -9_223_372_036_854_775_808i128 * den <= p <= 9_223_372_036_854_775_807i128 * den,
            den >= 1,
    ;
    q as i64
}

/// `path` with the extension of its last component replaced by (or, without one, extended
/// with) `ext`. A leading dot of a name does not start an extension.
pub open spec fn with_extension(path: Seq<char>, ext: Seq<char>) -> Seq<char> {
    let d = dir_prefix_len(path) as int;
    let name = path.subrange(d, path.len() as int);
    let dot = dot_prefix_len(name) as int;
    let stem = if dot > 1 {
        name.subrange(0, dot - 1)
    } else {
        name
    };
    path.subrange(0, d) + stem + "."@ + ext
}

pub fn replace_extension(path: &str, ext: &str) -> (r: String)
    ensures
        r@ == with_extension(path@, ext@),
{
    proof {
        crate::utils::lemma_dir_prefix_len_le(path@);
    }
    let d = dir_prefix_len_of(path);
    let n = path.unicode_len();
    let name = substring(path, d, n);
    let dot = dot_prefix_len_of(name.as_str());
    let stem = if dot > 1 {
        substring(name.as_str(), 0, dot - 1)
    } else {
        name
    };
    let mut r = substring(path, 0, d);
    push_str(&mut r, stem.as_str());
    push_str(&mut r, ".");
    push_str(&mut r, ext);
    r
}

/// Options of a graph run that the library reads: input files, outputs and alignment.
#[derive(Clone, Debug, PartialEq, Eq)]
pub struct SharedGraphContext {
    pub input_files: InputFilesContext,
    pub output: Option<String>,
    pub inline_output: Option<String>,
    pub plotly_backend: bool,
    pub panel_alignment_mode: Option<PanelAlignmentModeArg>,
    pub time_range: Option<TimeRangeArg>,
    pub per_file_panels: Option<bool>,
}

/// Image and script paths: an inline output name goes into `ancestor` (`./` when unknown);
/// otherwise the output (by default `graph.png`) is taken under `.`.
pub open spec fn graph_output_spec(
    inline_output: Option<Seq<char>>,
    output: Option<Seq<char>>,
    ancestor: Option<Seq<char>>,
) -> (Seq<char>, Seq<char>) {
    let image = match inline_output {
        Some(f) => join_path(
            match ancestor {
                Some(a) => a,
                None => "./"@,
            },
            f,
        ),
        None => join_path(
            "."@,
            match output {
                Some(o) => o,
                None => "graph.png"@,
            },
        ),
    };
    (image, with_extension(image, "gnuplot"@))
}

pub open spec fn opt_seq(o: Option<String>) -> Option<Seq<char>> {
    match o {
        Some(s) => Some(s@),
        None => None,
    }
}

impl SharedGraphContext {
    pub fn new_with_input(input: Vec<String>) -> (r: Self)
        ensures
            r.input_files.input == input,
            r.input_files.cache_dir is None,
            r.output is None && r.inline_output is None && r.time_range is None,
            r.panel_alignment_mode is None,
    {
        SharedGraphContext {
            input_files: InputFilesContext::new_with_input(input),
            output: None,
            inline_output: None,
            plotly_backend: false,
            panel_alignment_mode: None,
            time_range: None,
            per_file_panels: None,
        }
    }

    /// The image path and the gnuplot script path beside it; `common_ancestor` is the common
    /// directory of the input files, when it could be found.
    pub fn get_graph_output_path(&self, common_ancestor: &Option<String>) -> (r: (String, String))
        ensures
            (r.0@, r.1@) == graph_output_spec(
                opt_seq(self.inline_output),
                opt_seq(self.output),
                opt_seq(*common_ancestor),
            ),
    {
        let image = match &self.inline_output {
            Some(f) => {
                let base = match common_ancestor {
                    Some(a) => a.clone(),
                    None => String::from_str("./"),
                };
                join(base.as_str(), f.as_str())
            },
            None => {
                let out = match &self.output {
                    Some(o) => o.clone(),
                    None => String::from_str("graph.png"),
                };
                join(".", out.as_str())
            },
        };
        let script = replace_extension(image.as_str(), "gnuplot");
        (image, script)
    }

    /// The output files of the chosen backend: for gnuplot the image and the script beside it;
    /// for plotly an HTML page (by default `graph3.html`), placed as the image would be.
    pub fn output_file_paths(&self, common_ancestor: &Option<String>) -> (r: OutputFilePaths)
        ensures
            !self.plotly_backend ==> (r matches OutputFilePaths::Gnuplot(image, script) && (image@, script@)
                == graph_output_spec(
                opt_seq(self.inline_output),
                opt_seq(self.output),
                opt_seq(*common_ancestor),
            )),
            self.plotly_backend ==> (r matches OutputFilePaths::Plotly(html) && html@ == with_extension(
                match self.inline_output {
                    Some(f) => join_path(
                        match opt_seq(*common_ancestor) {
                            Some(a) => a,
                            None => "./"@,
                        },
                        f@,
                    ),
                    None => join_path(
                        "."@,
                        match self.output {
                            Some(o) => o@,
                            None => "graph3.html"@,
                        },
                    ),
                },
                "html"@,
            )),
    {
        if self.plotly_backend {
            let page = match &self.inline_output {
                Some(f) => {
                    let base = match common_ancestor {
                        Some(a) => a.clone(),
                        None => String::from_str("./"),
                    };
                    join(base.as_str(), f.as_str())
                },
                None => {
                    let out = match &self.output {
                        Some(o) => o.clone(),
                        None => String::from_str("graph3.html"),
                    };
                    join(".", out.as_str())
                },
            };
            OutputFilePaths::Plotly(replace_extension(page.as_str(), "html"))
        } else {
            let (image, script) = self.get_graph_output_path(common_ancestor);
            OutputFilePaths::Gnuplot(image, script)
        }
    }

    /// Takes from `other` each of per-file panels, inline output and timestamp format that
    /// `self` leaves unset.
    pub fn merge_with_other(&mut self, other: SharedGraphContext)
        ensures
            final(self).per_file_panels == (if old(self).per_file_panels is None {
                other.per_file_panels
            } else {
                old(self).per_file_panels
            }),
            final(self).inline_output == (if old(self).inline_output is None {
                other.inline_output
            } else {
                old(self).inline_output
            }),
            final(self).input_files.timestamp_format == (if old(self).input_files.timestamp_format is None {
                other.input_files.timestamp_format
            } else {
                old(self).input_files.timestamp_format
            }),
            final(self).input_files.input == old(self).input_files.input,
            final(self).input_files.cache_dir == old(self).input_files.cache_dir,
            final(self).output == old(self).output,
            final(self).time_range == old(self).time_range,
            final(self).panel_alignment_mode == old(self).panel_alignment_mode,
    {
        if self.per_file_panels.is_none() {
            self.per_file_panels = other.per_file_panels;
        }
        if self.inline_output.is_none() {
            self.inline_output = other.inline_output;
        }
        if self.input_files.timestamp_format.is_none() {
            self.input_files.timestamp_format = other.input_files.timestamp_format;
        }
    }

    /// The cache directory of an input file, given its canonical absolute path.
    pub fn get_cache_dir(&self, canonical_log_file: &str) -> (r: String)
        ensures
            r@ == cache_dir_spec(opt_seq(self.input_files.cache_dir), canonical_log_file@),
    {
        get_cache_dir_inner(&self.input_files.cache_dir, canonical_log_file)
    }

    /// Whether the timestamp format in use (the given one, or the default) carries a date.
    pub open spec fn format_is_date(&self) -> bool {
        match self.input_files.timestamp_format {
            Some(f) => f is DateTime,
            None => true,
        }
    }

    /// The text of the timestamp format in use.
    pub open spec fn format_text(&self) -> Seq<char> {
        match self.input_files.timestamp_format {
            Some(f) => f.view_str(),
            None => crate::timestamp::DEFAULT_TIMESTAMP_STR@,
        }
    }

    pub open spec fn alignment_spec(&self) -> PanelAlignmentMode {
        match self.panel_alignment_mode {
            Some(PanelAlignmentModeArg::SharedOverlap) => PanelAlignmentMode::SharedOverlap,
            Some(PanelAlignmentModeArg::SharedFull) => PanelAlignmentMode::SharedFull,
            _ => PanelAlignmentMode::PerPanel,
        }
    }

    /// The alignment to use: a time range override gives `Fixed`, resolved against the whole
    /// data range `total`; otherwise the chosen mode, `PerPanel` when none was chosen.
    pub fn resolved_alignment_mode(&self, total: Range) -> (r: Result<PanelAlignmentMode, RangeError>)
        requires
            total.0.wf(),
            total.1.wf(),
            self.time_range matches Some(t) ==> t.wf(),
        ensures
            self.time_range is None ==> r == Ok::<PanelAlignmentMode, RangeError>(self.alignment_spec()),
            self.time_range is Some ==> (r matches Ok(m) ==> m is Fixed),
            r matches Ok(PanelAlignmentMode::Fixed(s, e)) ==> s.wf() && e.wf(),
            self.time_range matches Some(TimeRangeArg::AbsoluteDateTime(x, y)) ==> (r is Ok
                <==> absolute_window_in(x@, y@, self.format_is_date(), self.format_text()) is Some),
            self.time_range matches Some(TimeRangeArg::AbsoluteDateTime(x, y)) ==> (r matches Ok(
                PanelAlignmentMode::Fixed(s, e),
            ) ==> absolute_window_in(x@, y@, self.format_is_date(), self.format_text()) == Some(
                (s, e),
            )),
            self.time_range matches Some(TimeRangeArg::Relative(_, _)) ==> (within_dates(
                total.0.instant(),
            ) && within_dates(total.1.instant()) ==> r is Ok),
            self.time_range matches Some(TimeRangeArg::Relative(a, b)) ==> (r matches Ok(
                PanelAlignmentMode::Fixed(s, e),
            ) ==> moved_by(total.0, s, offset_micros(total, a) * 1000) && moved_by(
                total.0,
                e,
                offset_micros(total, b) * 1000,
            )),
    {
        match &self.time_range {
            Some(t) => {
                let fmt = self.input_files.timestamp_format();
                match t.resolve(total, &fmt) {
                    Ok(w) => Ok(PanelAlignmentMode::Fixed(w.0, w.1)),
                    Err(e) => Err(e),
                }
            },
            None => Ok(PanelAlignmentModeArg::to_mode(self.panel_alignment_mode)),
        }
    }
}

} // verus!
