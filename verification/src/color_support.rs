//! What the program prints for each file-system change, as text segments
//! with optional colors. Printing the segments is left to the caller.
use vstd::prelude::*;
use vstd::string::*;
use crate::color::{Color, ColorSettings};

verus! {

/// Whether console output is colored, and with which colors.
#[derive(Debug, Clone, Copy, PartialEq, Eq, Structural)]
pub enum ColorSupport {
    Uncolored,
    Colored(ColorSettings),
}

/// A piece of an output line and its color, if any.
#[derive(Debug, Clone)]
pub struct TextSegment {
    pub text: String,
    pub color: Option<Color>,
}

/// A piece of an output line, in spec terms.
pub struct SegmentView {
    pub text: Seq<char>,
    pub color: Option<Color>,
}

/// The segments of a line in spec terms.
pub open spec fn segment_views(v: Seq<TextSegment>) -> Seq<SegmentView> {
    v.map_values(|s: TextSegment| SegmentView { text: s.text@, color: s.color })
}

/// The text of a line: its segments one after the other.
pub open spec fn line_text(v: Seq<SegmentView>) -> Seq<char>
    decreases v.len(),
{
    if v.len() == 0 {
        Seq::empty()
    } else {
        line_text(v.drop_last()) + v.last().text
    }
}

impl Default for ColorSupport {
    fn default() -> (r: Self)
        ensures
            r == ColorSupport::Uncolored,
    {
        ColorSupport::Uncolored
    }
}

fn push_segment(v: &mut Vec<TextSegment>, text: &str, color: Option<Color>)
    ensures
        segment_views(final(v)@) == segment_views(old(v)@).push(SegmentView { text: text@, color }),
{
    let ghost before = v@;
    v.push(TextSegment { text: text.to_owned(), color });
    assert(segment_views(v@) =~= segment_views(before).push(SegmentView { text: text@, color }));
}

/// `label: a => b` as segments, with label, colon, source, arrow and target colors.
pub open spec fn arrow_line(
    label: Seq<char>,
    a: Seq<char>,
    b: Seq<char>,
    colors: Option<(Color, Color, Color, Color, Color)>,
) -> Seq<SegmentView> {
    let c = |i: int| -> Option<Color> {
        match colors {
            Some(cs) => Some(if i == 0 { cs.0 } else if i == 1 { cs.1 } else if i == 2 { cs.2 } else if i == 3 { cs.3 } else { cs.4 }),
            None => None,
        }
    };
    seq![
        SegmentView { text: label, color: c(0) },
        SegmentView { text: ":"@, color: c(1) },
        SegmentView { text: " "@, color: None },
        SegmentView { text: a, color: c(2) },
        SegmentView { text: " "@, color: None },
        SegmentView { text: "=>"@, color: c(3) },
        SegmentView { text: " "@, color: None },
        SegmentView { text: b, color: c(4) },
    ]
}

/// `label: a` as segments, with label, colon and target colors.
pub open spec fn plain_line(label: Seq<char>, a: Seq<char>, colors: Option<(Color, Color, Color)>) -> Seq<SegmentView> {
    let c = |i: int| -> Option<Color> {
        match colors {
            Some(cs) => Some(if i == 0 { cs.0 } else if i == 1 { cs.1 } else { cs.2 }),
            None => None,
        }
    };
    seq![
        SegmentView { text: label, color: c(0) },
        SegmentView { text: ":"@, color: c(1) },
        SegmentView { text: " "@, color: None },
        SegmentView { text: a, color: c(2) },
    ]
}

fn arrow_segments(label: &str, a: &str, b: &str, colors: Option<(Color, Color, Color, Color, Color)>) -> (r: Vec<TextSegment>)
    ensures
        segment_views(r@) == arrow_line(label@, a@, b@, colors),
{
    let (c0, c1, c2, c3, c4) = match colors {
        Some(cs) => (Some(cs.0), Some(cs.1), Some(cs.2), Some(cs.3), Some(cs.4)),
        None => (None, None, None, None, None),
    };
    let mut v: Vec<TextSegment> = Vec::new();
    push_segment(&mut v, label, c0);
    push_segment(&mut v, ":", c1);
    push_segment(&mut v, " ", None);
    push_segment(&mut v, a, c2);
    push_segment(&mut v, " ", None);
    push_segment(&mut v, "=>", c3);
    push_segment(&mut v, " ", None);
    push_segment(&mut v, b, c4);
    assert(segment_views(v@) =~= arrow_line(label@, a@, b@, colors));
    v
}

fn plain_segments(label: &str, a: &str, colors: Option<(Color, Color, Color)>) -> (r: Vec<TextSegment>)
    ensures
        segment_views(r@) == plain_line(label@, a@, colors),
{
    let (c0, c1, c2) = match colors {
        Some(cs) => (Some(cs.0), Some(cs.1), Some(cs.2)),
        None => (None, None, None),
    };
    let mut v: Vec<TextSegment> = Vec::new();
    push_segment(&mut v, label, c0);
    push_segment(&mut v, ":", c1);
    push_segment(&mut v, " ", None);
    push_segment(&mut v, a, c2);
    assert(segment_views(v@) =~= plain_line(label@, a@, colors));
    v
}

impl ColorSupport {
    /// The colors of a link line, if colored.
    pub open spec fn link_colors(self) -> Option<(Color, Color, Color, Color, Color)> {
        match self {
            ColorSupport::Uncolored => None,
            ColorSupport::Colored(s) => Some((s.link.link, s.link.colon, s.link.source, s.link.arrow, s.link.target)),
        }
    }

    /// The colors of a list line, if colored.
    pub open spec fn list_colors(self) -> Option<(Color, Color, Color, Color, Color)> {
        match self {
            ColorSupport::Uncolored => None,
            ColorSupport::Colored(s) => Some((s.list.link, s.list.colon, s.list.source, s.list.arrow, s.list.target)),
        }
    }

    /// The colors of an unlink line, if colored.
    pub open spec fn unlink_colors(self) -> Option<(Color, Color, Color)> {
        match self {
            ColorSupport::Uncolored => None,
            ColorSupport::Colored(s) => Some((s.unlink.unlink, s.unlink.colon, s.unlink.target)),
        }
    }

    /// The colors of a remove line, if colored.
    pub open spec fn remove_colors(self) -> Option<(Color, Color, Color)> {
        match self {
            ColorSupport::Uncolored => None,
            ColorSupport::Colored(s) => Some((s.remove.remove, s.remove.colon, s.remove.target)),
        }
    }

    /// The colors of a create line, if colored.
    pub open spec fn create_colors(self) -> Option<(Color, Color, Color)> {
        match self {
            ColorSupport::Uncolored => None,
            ColorSupport::Colored(s) => Some((s.create.create, s.create.colon, s.create.target)),
        }
    }

    /// The colors of the simulation note, if colored.
    pub open spec fn simulation_colors(self) -> Option<(Color, Color, Color)> {
        match self {
            ColorSupport::Uncolored => None,
            ColorSupport::Colored(s) => Some((s.simulation.note, s.simulation.colon, s.simulation.text)),
        }
    }

    /// The line printed when `item` is linked at `target`: `LINK: item => target`.
    pub fn link_text(&self, item: &str, target: &str) -> (r: Vec<TextSegment>)
        ensures
            segment_views(r@) == arrow_line("LINK"@, item@, target@, self.link_colors()),
    {
        let colors = match self {
            ColorSupport::Uncolored => None,
            ColorSupport::Colored(s) => Some((s.link.link, s.link.colon, s.link.source, s.link.arrow, s.link.target)),
        };
        arrow_segments("LINK", item, target, colors)
    }

    /// The line printed when a stowed `item` is found at `target`: `LINK: item => target`.
    pub fn list_text(&self, item: &str, target: &str) -> (r: Vec<TextSegment>)
        ensures
            segment_views(r@) == arrow_line("LINK"@, item@, target@, self.list_colors()),
    {
        let colors = match self {
            ColorSupport::Uncolored => None,
            ColorSupport::Colored(s) => Some((s.list.link, s.list.colon, s.list.source, s.list.arrow, s.list.target)),
        };
        arrow_segments("LINK", item, target, colors)
    }

    /// The line printed when a link is removed: `UNLINK: item`.
    pub fn unlink_text(&self, item: &str) -> (r: Vec<TextSegment>)
        ensures
            segment_views(r@) == plain_line("UNLINK"@, item@, self.unlink_colors()),
    {
        let colors = match self {
            ColorSupport::Uncolored => None,
            ColorSupport::Colored(s) => Some((s.unlink.unlink, s.unlink.colon, s.unlink.target)),
        };
        plain_segments("UNLINK", item, colors)
    }

    /// The line printed when an item is removed: `RM: item`.
    pub fn remove_text(&self, item: &str) -> (r: Vec<TextSegment>)
        ensures
            segment_views(r@) == plain_line("RM"@, item@, self.remove_colors()),
    {
        let colors = match self {
            ColorSupport::Uncolored => None,
            ColorSupport::Colored(s) => Some((s.remove.remove, s.remove.colon, s.remove.target)),
        };
        plain_segments("RM", item, colors)
    }

    /// The line printed when a directory is created: `MKDIR: item`.
    pub fn create_text(&self, item: &str) -> (r: Vec<TextSegment>)
        ensures
            segment_views(r@) == plain_line("MKDIR"@, item@, self.create_colors()),
    {
        let colors = match self {
            ColorSupport::Uncolored => None,
            ColorSupport::Colored(s) => Some((s.create.create, s.create.colon, s.create.target)),
        };
        plain_segments("MKDIR", item, colors)
    }

    /// The note printed after a simulated run, preceded by an empty line:
    /// `Note: Running in simulation mode.  The file system isn't being modified`.
    pub fn simulation_text(&self) -> (r: Vec<TextSegment>)
        ensures
            segment_views(r@) == seq![SegmentView { text: "\n"@, color: None }] + plain_line(
                "Note"@,
                "Running in simulation mode.  The file system isn't being modified"@,
                self.simulation_colors(),
            ),
    {
        let colors = match self {
            ColorSupport::Uncolored => None,
            ColorSupport::Colored(s) => Some((s.simulation.note, s.simulation.colon, s.simulation.text)),
        };
        let (c0, c1, c2) = match colors {
            Some(cs) => (Some(cs.0), Some(cs.1), Some(cs.2)),
            None => (None, None, None),
        };
        let mut v: Vec<TextSegment> = Vec::new();
        push_segment(&mut v, "\n", None);
        push_segment(&mut v, "Note", c0);
        push_segment(&mut v, ":", c1);
        push_segment(&mut v, " ", None);
        push_segment(&mut v, "Running in simulation mode.  The file system isn't being modified", c2);
        assert(segment_views(v@) =~= seq![SegmentView { text: "\n"@, color: None }] + plain_line(
            "Note"@,
            "Running in simulation mode.  The file system isn't being modified"@,
            colors,
        ));
        v
    }

    /// The name shown for the color mode: `None` or `Colored`.
    pub fn name(&self) -> (r: &'static str)
        ensures
            r@ == (match self {
                ColorSupport::Uncolored => "None"@,
                ColorSupport::Colored(_) => "Colored"@,
            }),
    {
        match self {
            ColorSupport::Uncolored => "None",
            ColorSupport::Colored(_) => "Colored",
        }
    }
}

} // verus!
