//! Gnuplot spellings of line styles, and the default style table.

use crate::graph_config::{Color, DashStyle, MarkerType, PlotStyle, COLOR_COUNT, DASH_COUNT, MARKER_COUNT};
use crate::text::{nat_digits, push_str, u128_to_string};
use vstd::prelude::*;

verus! {

impl MarkerType {
    pub open spec fn gnuplot_spec(self) -> Seq<char> {
        match self {
            MarkerType::Dot => "pt 7"@,
            MarkerType::Plus => "pt 1"@,
            MarkerType::Cross => "pt 3"@,
            MarkerType::Circle => "pt 6"@,
            MarkerType::Triangle => "pt 8"@,
            MarkerType::TriangleFilled => "pt 9"@,
            MarkerType::Square => "pt 4"@,
            MarkerType::SquareFilled => "pt 5"@,
            MarkerType::Diamond => "pt 12"@,
            MarkerType::DiamondFilled => "pt 13"@,
            MarkerType::X => "pt 2"@,
        }
    }

    /// The gnuplot point type, e.g. `pt 7`.
    pub fn to_gnuplot(&self) -> (r: &'static str)
        ensures
            r@ == self.gnuplot_spec(),
    {
        match self {
            MarkerType::Dot => "pt 7",
            MarkerType::Plus => "pt 1",
            MarkerType::Cross => "pt 3",
            MarkerType::Circle => "pt 6",
            MarkerType::Triangle => "pt 8",
            MarkerType::TriangleFilled => "pt 9",
            MarkerType::Square => "pt 4",
            MarkerType::SquareFilled => "pt 5",
            MarkerType::Diamond => "pt 12",
            MarkerType::DiamondFilled => "pt 13",
            MarkerType::X => "pt 2",
        }
    }
}

impl Color {
    pub open spec fn gnuplot_spec(self) -> Seq<char> {
        match self {
            Color::Red => "lc rgb \"red\""@,
            Color::Blue => "lc rgb \"blue\""@,
            Color::Green => "lc rgb \"green\""@,
            Color::Orange => "lc rgb \"orange\""@,
            Color::Purple => "lc rgb \"purple\""@,
            Color::Cyan => "lc rgb \"cyan\""@,
            Color::Magenta => "lc rgb \"magenta\""@,
            Color::Goldenrod => "lc rgb \"goldenrod\""@,
            Color::Brown => "lc rgb \"brown\""@,
            Color::Olive => "lc rgb \"olive\""@,
            Color::Navy => "lc rgb \"navy\""@,
            Color::DarkGreen => "lc rgb \"dark-green\""@,
            Color::DarkOrange => "lc rgb \"dark-orange\""@,
            Color::Violet => "lc rgb \"violet\""@,
            Color::Coral => "lc rgb \"coral\""@,
            Color::Salmon => "lc rgb \"salmon\""@,
            Color::SteelBlue => "lc rgb \"steelblue\""@,
            Color::DarkMagenta => "lc rgb \"dark-magenta\""@,
            Color::DarkCyan => "lc rgb \"dark-cyan\""@,
            Color::DarkYellow => "lc rgb \"dark-yellow\""@,
            Color::DarkTurquoise => "lc rgb \"dark-turquoise\""@,
            Color::Yellow => "lc rgb \"yellow\""@,
            Color::Black => "lc rgb \"black\""@,
        }
    }

    /// The gnuplot color, e.g. `lc rgb "red"`.
    pub fn to_gnuplot(&self) -> (r: &'static str)
        ensures
            r@ == self.gnuplot_spec(),
    {
        match self {
            Color::Red => "lc rgb \"red\"",
            Color::Blue => "lc rgb \"blue\"",
            Color::Green => "lc rgb \"green\"",
            Color::Orange => "lc rgb \"orange\"",
            Color::Purple => "lc rgb \"purple\"",
            Color::Cyan => "lc rgb \"cyan\"",
            Color::Magenta => "lc rgb \"magenta\"",
            Color::Goldenrod => "lc rgb \"goldenrod\"",
            Color::Brown => "lc rgb \"brown\"",
            Color::Olive => "lc rgb \"olive\"",
            Color::Navy => "lc rgb \"navy\"",
            Color::DarkGreen => "lc rgb \"dark-green\"",
            Color::DarkOrange => "lc rgb \"dark-orange\"",
            Color::Violet => "lc rgb \"violet\"",
            Color::Coral => "lc rgb \"coral\"",
            Color::Salmon => "lc rgb \"salmon\"",
            Color::SteelBlue => "lc rgb \"steelblue\"",
            Color::DarkMagenta => "lc rgb \"dark-magenta\"",
            Color::DarkCyan => "lc rgb \"dark-cyan\"",
            Color::DarkYellow => "lc rgb \"dark-yellow\"",
            Color::DarkTurquoise => "lc rgb \"dark-turquoise\"",
            Color::Yellow => "lc rgb \"yellow\"",
            Color::Black => "lc rgb \"black\"",
        }
    }
}

impl PlotStyle {
    pub open spec fn gnuplot_spec(self) -> Seq<char> {
        match self {
            PlotStyle::Lines => "with lines"@,
            PlotStyle::Steps => "with steps"@,
            PlotStyle::Points => "with points"@,
            PlotStyle::LinesPoints => "with linespoints"@,
        }
    }

    /// The gnuplot plotting style, e.g. `with linespoints`.
    pub fn to_gnuplot(&self) -> (r: &'static str)
        ensures
            r@ == self.gnuplot_spec(),
    {
        match self {
            PlotStyle::Lines => "with lines",
            PlotStyle::Steps => "with steps",
            PlotStyle::Points => "with points",
            PlotStyle::LinesPoints => "with linespoints",
        }
    }
}

impl DashStyle {
    pub open spec fn gnuplot_spec(self) -> Seq<char> {
        match self {
            DashStyle::Solid => "dt 1"@,
            DashStyle::Dashed => "dt 2"@,
            DashStyle::Dotted => "dt 3"@,
            DashStyle::DashDot => "dt 4"@,
            DashStyle::LongDash => "dt 5"@,
        }
    }

    /// The gnuplot dash type, e.g. `dt 2`.
    pub fn to_gnuplot(&self) -> (r: &'static str)
        ensures
            r@ == self.gnuplot_spec(),
    {
        match self {
            DashStyle::Solid => "dt 1",
            DashStyle::Dashed => "dt 2",
            DashStyle::Dotted => "dt 3",
            DashStyle::DashDot => "dt 4",
            DashStyle::LongDash => "dt 5",
        }
    }
}

/// Color, dash and marker of one line type.
#[derive(Clone, Copy, Debug, PartialEq, Eq, Structural)]
pub struct Style {
    pub color: Color,
    pub dash: DashStyle,
    pub marker: MarkerType,
}

impl Style {
    /// `set linetype <i> <color> <dash> <marker> lw 2.0 ps 4.0`
    pub fn line_style(&self, i: usize) -> (r: String)
        ensures
            r@ == "set linetype "@ + nat_digits(i as nat) + " "@ + self.color.gnuplot_spec() + " "@
                + self.dash.gnuplot_spec() + " "@ + self.marker.gnuplot_spec() + " lw 2.0 ps 4.0"@,
    {
        let mut r = String::from_str("set linetype ");
        push_str(&mut r, u128_to_string(i as u128).as_str());
        push_str(&mut r, " ");
        push_str(&mut r, self.color.to_gnuplot());
        push_str(&mut r, " ");
        push_str(&mut r, self.dash.to_gnuplot());
        push_str(&mut r, " ");
        push_str(&mut r, self.marker.to_gnuplot());
        push_str(&mut r, " lw 2.0 ps 4.0");
        r
    }
}

/// The default line types: for each dash style in turn, every color, with the marker types
/// repeating alongside the colors.
pub fn build_default_styles() -> (r: Vec<Style>)
    ensures
        r@.len() == DASH_COUNT * COLOR_COUNT,
        forall|d: int, c: int|
            0 <= d < DASH_COUNT && 0 <= c < COLOR_COUNT ==> #[trigger] r@[d * COLOR_COUNT + c] == (Style {
                color: Color::at_spec(c),
                dash: DashStyle::at_spec(d),
                marker: MarkerType::at_spec(c % MARKER_COUNT as int),
            }),
{
    let mut styles: Vec<Style> = Vec::new();
    let mut d: usize = 0;
    while d < DASH_COUNT
        invariant
            d <= DASH_COUNT,
            styles@.len() == d * COLOR_COUNT,
            forall|dd: int, c: int|
                0 <= dd < d && 0 <= c < COLOR_COUNT ==> #[trigger] styles@[dd * COLOR_COUNT + c] == (Style {
                    color: Color::at_spec(c),
                    dash: DashStyle::at_spec(dd),
                    marker: MarkerType::at_spec(c % MARKER_COUNT as int),
                }),
        decreases DASH_COUNT - d,
    {
        let dash = DashStyle::at(d);
        let mut c: usize = 0;
        while c < COLOR_COUNT
            invariant
                d < DASH_COUNT,
                c <= COLOR_COUNT,
                dash == DashStyle::at_spec(d as int),
                styles@.len() == d * COLOR_COUNT + c,
                forall|dd: int, cc: int|
                    0 <= dd < d && 0 <= cc < COLOR_COUNT ==> #[trigger] styles@[dd * COLOR_COUNT + cc] == (Style {
                        color: Color::at_spec(cc),
                        dash: DashStyle::at_spec(dd),
                        marker: MarkerType::at_spec(cc % MARKER_COUNT as int),
                    }),
                forall|cc: int|
                    0 <= cc < c ==> #[trigger] styles@[d * COLOR_COUNT + cc] == (Style {
                        color: Color::at_spec(cc),
                        dash: DashStyle::at_spec(d as int),
                        marker: MarkerType::at_spec(cc % MARKER_COUNT as int),
                    }),
            decreases COLOR_COUNT - c,
        {
            let style = Style { color: Color::at(c), dash, marker: MarkerType::at(c % MARKER_COUNT) };
            styles.push(style);
            proof {
                assert forall|dd: int, cc: int|
                    0 <= dd < d && 0 <= cc < COLOR_COUNT implies #[trigger] styles@[dd * COLOR_COUNT + cc] == (Style {
                        color: Color::at_spec(cc),
                        dash: DashStyle::at_spec(dd),
                        marker: MarkerType::at_spec(cc % MARKER_COUNT as int),
                    }) by {
                    assert(dd * COLOR_COUNT + cc < d * COLOR_COUNT) by (nonlinear_arith)
                        requires
                            dd < d,
                            0 <= cc < COLOR_COUNT,
                    ;
                }
            }
            c = c + 1;
        }
        proof {
            assert forall|dd: int, cc: int|
                0 <= dd < d + 1 && 0 <= cc < COLOR_COUNT implies #[trigger] styles@[dd * COLOR_COUNT + cc] == (Style {
                    color: Color::at_spec(cc),
                    dash: DashStyle::at_spec(dd),
                    marker: MarkerType::at_spec(cc % MARKER_COUNT as int),
                }) by {
                if dd == d {
                    assert(styles@[d * COLOR_COUNT + cc] == styles@[dd * COLOR_COUNT + cc]);
                }
            }
        }
        d = d + 1;
    }
    styles
}

} // verus!
