//! The frame handed to the terminal toolkit: five bar charts in two rows.

use crate::chart::{
    BarModel, bars_model, bucket, ceiling, filter_sensor, has_declared_max, is_greatest_declared,
    lemma_ceiling_is_declared_maximum,
};
use crate::sensor::{Category, Reading, ReadingModel, readings_model};
use vstd::prelude::*;

verus! {

/// A terminal color. `Reset` is the terminal's own default.
#[derive(Clone, Copy, Debug, PartialEq, Eq, Structural)]
pub enum Color {
    Reset,
    Black,
    Green,
    Yellow,
    Magenta,
    Cyan,
    White,
}

/// Foreground and background of what is painted.
#[derive(Clone, Copy, Debug, PartialEq, Eq, Structural)]
pub struct Style {
    pub fg: Color,
    pub bg: Color,
}

/// Width of every bar, in terminal columns.
pub const BAR_WIDTH: u16 = 9;

/// Blank margin around the frame, in terminal cells.
pub const MARGIN: u16 = 1;

/// One bordered bar chart.
#[derive(Debug, PartialEq, Eq)]
pub struct Chart<'a> {
    /// Shown on the border.
    pub title: &'a str,
    /// The value at which a bar fills the chart's height.
    pub max: u64,
    /// Label and value of each bar, left to right.
    pub data: Vec<(&'a str, u64)>,
    pub bar_width: u16,
    /// Style of the bars.
    pub style: Style,
    /// Style of the value printed on each bar.
    pub value_style: Style,
}

/// A chart and the share of its row's width that it takes, in percent.
#[derive(Debug, PartialEq, Eq)]
pub struct Cell<'a> {
    pub width: u16,
    pub chart: Chart<'a>,
}

/// A row of charts and the share of the frame's height that it takes, in
/// percent.
#[derive(Debug, PartialEq, Eq)]
pub struct Row<'a> {
    pub height: u16,
    pub cells: Vec<Cell<'a>>,
}

/// All that is painted in one redraw: rows from top to bottom, each with its
/// charts from left to right.
#[derive(Debug, PartialEq, Eq)]
pub struct Frame<'a> {
    pub margin: u16,
    pub rows: Vec<Row<'a>>,
}

/// The mathematical value of a [`Chart`].
pub struct ChartModel {
    pub title: Seq<char>,
    pub max: u64,
    pub data: Seq<BarModel>,
    pub bar_width: u16,
    pub style: Style,
    pub value_style: Style,
}

/// The mathematical value of a [`Cell`].
pub struct CellModel {
    pub width: u16,
    pub chart: ChartModel,
}

/// The mathematical value of a [`Row`].
pub struct RowModel {
    pub height: u16,
    pub cells: Seq<CellModel>,
}

/// The mathematical value of a [`Frame`].
pub struct FrameModel {
    pub margin: u16,
    pub rows: Seq<RowModel>,
}

impl<'a> View for Chart<'a> {
    type V = ChartModel;

    open spec fn view(&self) -> ChartModel {
        ChartModel {
            title: self.title@,
            max: self.max,
            data: bars_model(self.data@),
            bar_width: self.bar_width,
            style: self.style,
            value_style: self.value_style,
        }
    }
}

impl<'a> View for Cell<'a> {
    type V = CellModel;

    open spec fn view(&self) -> CellModel {
        CellModel { width: self.width, chart: self.chart@ }
    }
}

impl<'a> View for Row<'a> {
    type V = RowModel;

    open spec fn view(&self) -> RowModel {
        RowModel { height: self.height, cells: self.cells@.map_values(|c: Cell<'a>| c@) }
    }
}

impl<'a> View for Frame<'a> {
    type V = FrameModel;

    open spec fn view(&self) -> FrameModel {
        FrameModel { margin: self.margin, rows: self.rows@.map_values(|r: Row<'a>| r@) }
    }
}

/// The title on the border of the chart of `category`.
pub open spec fn spec_chart_title(category: Category) -> Seq<char> {
    match category {
        Category::Cpu => "CPUs"@,
        Category::Gpu => "GPUs"@,
        Category::Hdd => "HDDs"@,
        Category::Fan => "Fans"@,
        Category::Other(_) => "Others"@,
    }
}

/// The color of the bars of the chart of `category`.
pub open spec fn spec_chart_color(category: Category) -> Color {
    match category {
        Category::Cpu => Color::Green,
        Category::Gpu => Color::Yellow,
        Category::Hdd => Color::Cyan,
        Category::Fan => Color::Magenta,
        Category::Other(_) => Color::White,
    }
}

/// The title on the border of the chart of `category`.
pub fn chart_title(category: Category) -> (title: &'static str)
    ensures
        title@ == spec_chart_title(category),
{
    match category {
        Category::Cpu => "CPUs",
        Category::Gpu => "GPUs",
        Category::Hdd => "HDDs",
        Category::Fan => "Fans",
        Category::Other(_) => "Others",
    }
}

/// The color of the bars of the chart of `category`.
#[verifier::when_used_as_spec(spec_chart_color)]
pub fn chart_color(category: Category) -> (color: Color)
    ensures
        color == spec_chart_color(category),
{
    match category {
        Category::Cpu => Color::Green,
        Category::Gpu => Color::Yellow,
        Category::Hdd => Color::Cyan,
        Category::Fan => Color::Magenta,
        Category::Other(_) => Color::White,
    }
}

/// The chart of `category` for a snapshot: the category's readings as bars,
/// scaled to the greatest ceiling declared among them or else to the
/// category's default, in the category's colors. Values are printed in black
/// on the color of the bars.
pub open spec fn chart_of(readings: Seq<ReadingModel>, category: Category) -> ChartModel {
    ChartModel {
        title: spec_chart_title(category),
        max: ceiling(readings, category, category.spec_default_ceiling()),
        data: bucket(readings, category),
        bar_width: BAR_WIDTH,
        style: Style { fg: spec_chart_color(category), bg: Color::Reset },
        value_style: Style { fg: Color::Black, bg: spec_chart_color(category) },
    }
}

/// The scale of the chart of a category: the greatest ceiling that a sensor
/// of the category declares, and the category's default where none declares
/// one.
pub proof fn lemma_chart_scale(readings: Seq<ReadingModel>, category: Category)
    ensures
        has_declared_max(readings, category) ==> is_greatest_declared(
            readings,
            category,
            chart_of(readings, category).max,
        ),
        !has_declared_max(readings, category) ==> chart_of(readings, category).max
            == category.spec_default_ceiling(),
{
    if has_declared_max(readings, category) {
        lemma_ceiling_is_declared_maximum(readings, category, category.spec_default_ceiling());
    }
}

/// The chart of `category` in a cell that takes `width` percent of its row.
pub open spec fn cell_of(readings: Seq<ReadingModel>, width: u16, category: Category) -> CellModel {
    CellModel { width, chart: chart_of(readings, category) }
}

/// The frame for a snapshot. The upper row takes 60 percent of the height and
/// holds the charts of processors, graphics cards and disks side by side, a
/// third of the width each. The lower row takes the other 40 percent and
/// holds the charts of fans and of the miscellaneous sensors that are flagged
/// for display, half of the width each.
pub open spec fn frame_of(readings: Seq<ReadingModel>) -> FrameModel {
    FrameModel {
        margin: MARGIN,
        rows: seq![
            RowModel {
                height: 60,
                cells: seq![
                    cell_of(readings, 33, Category::Cpu),
                    cell_of(readings, 33, Category::Gpu),
                    cell_of(readings, 33, Category::Hdd),
                ],
            },
            RowModel {
                height: 40,
                cells: seq![
                    cell_of(readings, 50, Category::Fan),
                    cell_of(readings, 50, Category::Other(true)),
                ],
            },
        ],
    }
}

/// Builds the chart of `category` in a cell of the given width.
pub fn chart_cell<'a>(sensors: &'a [Reading], width: u16, category: Category) -> (cell: Cell<'a>)
    ensures
        cell@ == cell_of(readings_model(sensors@), width, category),
{
    let (data, max) = filter_sensor(sensors, category, category.default_ceiling());
    let color = chart_color(category);
    Cell {
        width,
        chart: Chart {
            title: chart_title(category),
            max,
            data,
            bar_width: BAR_WIDTH,
            style: Style { fg: color, bg: Color::Reset },
            value_style: Style { fg: Color::Black, bg: color },
        },
    }
}

/// Draws up the frame for a snapshot of the telemetry table.
pub fn draw<'a>(sensors: &'a [Reading]) -> (frame: Frame<'a>)
    ensures
        frame@ == frame_of(readings_model(sensors@)),
{
    let mut upper: Vec<Cell<'a>> = Vec::new();
    upper.push(chart_cell(sensors, 33, Category::Cpu));
    upper.push(chart_cell(sensors, 33, Category::Gpu));
    upper.push(chart_cell(sensors, 33, Category::Hdd));
    let mut lower: Vec<Cell<'a>> = Vec::new();
    lower.push(chart_cell(sensors, 50, Category::Fan));
    lower.push(chart_cell(sensors, 50, Category::Other(true)));
    let mut rows: Vec<Row<'a>> = Vec::new();
    rows.push(Row { height: 60, cells: upper });
    rows.push(Row { height: 40, cells: lower });
    let frame = Frame { margin: MARGIN, rows };
    proof {
        let expected = frame_of(readings_model(sensors@));
        assert(frame.rows@[0]@.cells =~= expected.rows[0].cells);
        assert(frame.rows@[1]@.cells =~= expected.rows[1].cells);
        assert(frame@.rows =~= expected.rows);
    }
    frame
}

} // verus!
