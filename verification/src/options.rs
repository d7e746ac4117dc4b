use vstd::prelude::*;
use vstd::string::StringExecFns;
use vstd::string::StringSliceAdditionalSpecFns;

verus! {

/// Options for one chart axis: title, line and label colours, and how
/// often lines and labels are drawn along it.
pub struct AxisOptions {
    /// Title of the axis.
    pub title: String,
    /// Colour for the title of the axis.
    pub title_colour: u32,
    /// Colour used for lines drawn upon the graph.
    pub line_colour: u32,
    /// Distance between lines, in the axis' own units; zero disables them.
    pub line_frequency: i64,
    /// Colour used for the labels.
    pub label_colour: u32,
    /// Distance between labels, in the axis' own units; zero disables
    /// them.
    pub label_frequency: i64,
}

impl AxisOptions {
    /// Axis options with default parameters: untitled, opaque black title,
    /// grey lines and labels, and no lines or labels drawn.
    pub fn new() -> (r: AxisOptions)
        ensures
            r.title@ == Seq::<char>::empty(),
            r.title_colour == 0x000000FF,
            r.line_colour == 0x999999FF,
            r.line_frequency == 0,
            r.label_colour == 0x555555FF,
            r.label_frequency == 0,
    {
        AxisOptions {
            title: String::new(),
            // fully opaque black
            title_colour: 0x000000FF,
            line_colour: 0x999999FF,
            line_frequency: 0,
            label_colour: 0x555555FF,
            label_frequency: 0,
        }
    }

    /// The same options with another title.
    pub fn title(self, title: &str, colour: u32) -> (r: AxisOptions)
        ensures
            r.title@ == title@,
            r.title_colour == colour,
            r.line_colour == self.line_colour,
            r.line_frequency == self.line_frequency,
            r.label_colour == self.label_colour,
            r.label_frequency == self.label_frequency,
    {
        AxisOptions {
            title: String::from_str(title),
            title_colour: colour,
            ..self
        }
    }

    /// The same options with another line colour and frequency.
    pub fn line(self, colour: u32, frequency: i64) -> (r: AxisOptions)
        ensures
            r.title@ == self.title@,
            r.title_colour == self.title_colour,
            r.line_colour == colour,
            r.line_frequency == frequency,
            r.label_colour == self.label_colour,
            r.label_frequency == self.label_frequency,
    {
        AxisOptions { line_colour: colour, line_frequency: frequency, ..self }
    }

    /// The same options with another label colour and frequency.
    pub fn label(self, colour: u32, frequency: i64) -> (r: AxisOptions)
        ensures
            r.title@ == self.title@,
            r.title_colour == self.title_colour,
            r.line_colour == self.line_colour,
            r.line_frequency == self.line_frequency,
            r.label_colour == colour,
            r.label_frequency == frequency,
    {
        AxisOptions { label_colour: colour, label_frequency: frequency, ..self }
    }
}

} // verus!
