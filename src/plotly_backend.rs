//! Plotly spellings of line styles.

use crate::graph_config::Color;
use vstd::prelude::*;

verus! {

impl Color {
    pub open spec fn plotly_spec(self) -> Seq<char> {
        match self {
            Color::Red => "red"@,
            Color::Blue => "blue"@,
            Color::Green => "green"@,
            Color::Orange => "orange"@,
            Color::Purple => "purple"@,
            Color::Cyan => "cyan"@,
            Color::Magenta => "magenta"@,
            Color::Goldenrod => "goldenrod"@,
            Color::Brown => "brown"@,
            Color::Olive => "olive"@,
            Color::Navy => "navy"@,
            Color::DarkGreen => "darkgreen"@,
            Color::DarkOrange => "darkorange"@,
            Color::Violet => "violet"@,
            Color::Coral => "coral"@,
            Color::Salmon => "salmon"@,
            Color::SteelBlue => "steelblue"@,
            Color::DarkMagenta => "darkmagenta"@,
            Color::DarkCyan => "darkcyan"@,
            Color::DarkYellow => "gold"@,
            Color::DarkTurquoise => "darkturquoise"@,
            Color::Yellow => "yellow"@,
            Color::Black => "black"@,
        }
    }

    /// The plotly color name; plotly has no dark yellow, so `gold` stands for it.
    pub fn to_plotly(&self) -> (r: &'static str)
        ensures
            r@ == self.plotly_spec(),
    {
        match self {
            Color::Red => "red",
            Color::Blue => "blue",
            Color::Green => "green",
            Color::Orange => "orange",
            Color::Purple => "purple",
            Color::Cyan => "cyan",
            Color::Magenta => "magenta",
            Color::Goldenrod => "goldenrod",
            Color::Brown => "brown",
            Color::Olive => "olive",
            Color::Navy => "navy",
            Color::DarkGreen => "darkgreen",
            Color::DarkOrange => "darkorange",
            Color::Violet => "violet",
            Color::Coral => "coral",
            Color::Salmon => "salmon",
            Color::SteelBlue => "steelblue",
            Color::DarkMagenta => "darkmagenta",
            Color::DarkCyan => "darkcyan",
            Color::DarkYellow => "gold",
            Color::DarkTurquoise => "darkturquoise",
            Color::Yellow => "yellow",
            Color::Black => "black",
        }
    }
}

} // verus!
