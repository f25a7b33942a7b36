use vstd::prelude::*;

verus! {

/// The kind of diagram that a chart is drawn as.
#[derive(Clone, Copy, Debug, PartialEq, Eq, Structural)]
pub enum ChartKind {
    /// The distribution of the values.
    Histogram,
    /// The values against their positions on the horizontal axis.
    Line,
    /// One bar per value.
    Bar,
}

/// What a renderer needs to draw one diagram: a title, the name of the file
/// to write, and the data. The values are fixed-point measures.
#[derive(Clone, Debug, PartialEq, Eq)]
pub struct Chart {
    pub kind: ChartKind,
    pub title: &'static str,
    pub file_name: &'static str,
    /// The positions on the horizontal axis; empty for histograms and bars.
    pub x_data: Vec<u32>,
    pub y_data: Vec<Option<u128>>,
}

/// A chart as mathematical values.
pub struct ChartView {
    pub kind: ChartKind,
    pub title: Seq<char>,
    pub file_name: Seq<char>,
    pub x_data: Seq<u32>,
    pub y_data: Seq<Option<u128>>,
}

impl View for Chart {
    type V = ChartView;

    open spec fn view(&self) -> ChartView {
        ChartView {
            kind: self.kind,
            title: self.title@,
            file_name: self.file_name@,
            x_data: self.x_data@,
            y_data: self.y_data@,
        }
    }
}

/// The positions `0, 1, ..` of `n` values.
pub open spec fn positions(n: nat) -> Seq<u32> {
    Seq::new(n, |i: int| i as u32)
}

impl Chart {
    /// A histogram of `y`.
    pub fn histogram(title: &'static str, file_name: &'static str, y: Vec<Option<u128>>) -> (chart:
        Chart)
        ensures
            chart@ == (ChartView {
                kind: ChartKind::Histogram,
                title: title@,
                file_name: file_name@,
                x_data: Seq::empty(),
                y_data: y@,
            }),
    {
        Chart { kind: ChartKind::Histogram, title, file_name, x_data: Vec::new(), y_data: y }
    }

    /// A bar chart of `y`.
    pub fn bar(title: &'static str, file_name: &'static str, y: Vec<Option<u128>>) -> (chart: Chart)
        ensures
            chart@ == (ChartView {
                kind: ChartKind::Bar,
                title: title@,
                file_name: file_name@,
                x_data: Seq::empty(),
                y_data: y@,
            }),
    {
        Chart { kind: ChartKind::Bar, title, file_name, x_data: Vec::new(), y_data: y }
    }

    /// A line through the points `(x[i], y[i])`.
    pub fn from_data(
        title: &'static str,
        file_name: &'static str,
        x: Vec<u32>,
        y: Vec<Option<u128>>,
    ) -> (chart: Chart)
        requires
            x@.len() == y@.len(),
        ensures
            chart@ == (ChartView {
                kind: ChartKind::Line,
                title: title@,
                file_name: file_name@,
                x_data: x@,
                y_data: y@,
            }),
    {
        Chart { kind: ChartKind::Line, title, file_name, x_data: x, y_data: y }
    }

    /// A line through the values of `y` at the positions `0, 1, ..`.
    pub fn over_positions(title: &'static str, file_name: &'static str, y: Vec<Option<u128>>) -> (chart:
        Chart)
        requires
            y@.len() <= u32::MAX,
        ensures
            chart@ == (ChartView {
                kind: ChartKind::Line,
                title: title@,
                file_name: file_name@,
                x_data: positions(y@.len()),
                y_data: y@,
            }),
    {
        let mut x: Vec<u32> = Vec::new();
        let mut i: u32 = 0;
        while (i as usize) < y.len()
            invariant
                y@.len() <= u32::MAX,
                i <= y@.len(),
                x@.len() == i,
                forall|j: int| 0 <= j < i ==> x@[j] == j as u32,
            decreases y@.len() - i,
        {
            x.push(i);
            i = i + 1;
        }
        assert(x@ =~= positions(y@.len()));
        Chart::from_data(title, file_name, x, y)
    }
}

} // verus!
