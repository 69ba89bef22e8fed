use vstd::prelude::*;

verus! {

/// Recurrent cell types for sequence models.
#[derive(Clone, Copy, Debug, PartialEq, Eq, Structural)]
pub enum RNNCellType {
    /// Simple recurrent cell.
    SimpleRNN,
    /// Long short-term memory cell.
    LSTM,
    /// Gated recurrent unit.
    GRU,
}

/// Kinds of attention mechanism.
#[derive(Clone, Copy, Debug, PartialEq, Eq, Structural)]
pub enum AttentionType {
    /// Additive (Bahdanau) attention.
    Additive,
    /// Multiplicative (Luong) attention.
    Multiplicative,
    /// Attention through a learned projection.
    General,
}

/// The registry of configuration schemas for model architectures. The schemas
/// themselves carry floating-point bounds and JSON default values, so they are
/// built outside this library.
#[derive(Clone, Copy, Debug, PartialEq, Eq, Structural)]
pub struct SchemaRegistry;

/// Options for plotting training curves as text.
#[derive(Clone, Copy, Debug, PartialEq, Eq, Structural)]
pub struct PlotOptions {
    /// Width of the plot in characters.
    pub width: usize,
    /// Height of the plot in characters.
    pub height: usize,
    /// Largest number of ticks on the x axis.
    pub max_x_ticks: usize,
    /// Largest number of ticks on the y axis.
    pub max_y_ticks: usize,
    /// Character drawn for the plot line.
    pub line_char: char,
    /// Character drawn for plot points.
    pub point_char: char,
    /// Character drawn for the background.
    pub background_char: char,
    /// Whether a grid is drawn.
    pub show_grid: bool,
    /// Whether a legend is drawn.
    pub show_legend: bool,
}

impl Default for PlotOptions {
    /// An 80 x 20 plot with at most 10 x ticks and 5 y ticks, a grid and a legend.
    fn default() -> (r: PlotOptions)
        ensures
            r.width == 80 && r.height == 20,
            r.max_x_ticks == 10 && r.max_y_ticks == 5,
            r.line_char == '\u{2500}' && r.point_char == '\u{25CF}' && r.background_char == ' ',
            r.show_grid && r.show_legend,
    {
        PlotOptions {
            width: 80,
            height: 20,
            max_x_ticks: 10,
            max_y_ticks: 5,
            line_char: '\u{2500}',
            point_char: '\u{25CF}',
            background_char: ' ',
            show_grid: true,
            show_legend: true,
        }
    }
}

} // verus!
