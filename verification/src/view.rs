//! The six charts produced from a capture.
use vstd::prelude::*;

use crate::text::{decimal_string, digit_char};
use vstd::view::View as _;

verus! {

/// The six charts produced from a capture.
#[derive(Clone, Copy, PartialEq, Eq, Debug, Structural)]
pub enum View {
    FrameTime,
    Report,
    Histogram,
    Gpu,
    Cpu,
    Latency,
}

/// The 1-based number of a view.
pub open spec fn view_number(v: View) -> nat {
    match v {
        View::FrameTime => 1,
        View::Report => 2,
        View::Histogram => 3,
        View::Gpu => 4,
        View::Cpu => 5,
        View::Latency => 6,
    }
}

/// The view a number selects: 2..=6 name their view, every other number the first.
pub open spec fn view_from_number(n: u32) -> View {
    if n == 2 {
        View::Report
    } else if n == 3 {
        View::Histogram
    } else if n == 4 {
        View::Gpu
    } else if n == 5 {
        View::Cpu
    } else if n == 6 {
        View::Latency
    } else {
        View::FrameTime
    }
}

/// The chart title of a view.
pub open spec fn view_label(v: View) -> Seq<char> {
    match v {
        View::FrameTime => "Frame Time Timeline"@,
        View::Report => "Performance Report"@,
        View::Histogram => "Frame Time Histogram"@,
        View::Gpu => "GPU Monitor"@,
        View::Cpu => "CPU Monitor"@,
        View::Latency => "Latency Analysis"@,
    }
}

/// The short machine name of a view.
pub open spec fn view_slug(v: View) -> Seq<char> {
    match v {
        View::FrameTime => "frame_time"@,
        View::Report => "report"@,
        View::Histogram => "histogram"@,
        View::Gpu => "gpu"@,
        View::Cpu => "cpu"@,
        View::Latency => "latency"@,
    }
}

/// `n` printed in decimal with at least two digits (`{:02}`), for `n < 100`.
pub open spec fn two_digits(n: nat) -> Seq<char> {
    seq![digit_char(n / 10), digit_char(n % 10)]
}

/// The output file name of a view: its two-digit number, `_`, its slug and `.png`.
pub open spec fn view_file_name(v: View) -> Seq<char> {
    two_digits(view_number(v)) + "_"@ + view_slug(v) + ".png"@
}

/// The views in chart order.
pub open spec fn all_views() -> Seq<View> {
    seq![View::FrameTime, View::Report, View::Histogram, View::Gpu, View::Cpu, View::Latency]
}

impl View {
    /// The six views in chart order.
    pub const ALL: [View; 6] = [
        View::FrameTime,
        View::Report,
        View::Histogram,
        View::Gpu,
        View::Cpu,
        View::Latency,
    ];

    /// The chart title.
    pub fn label(self) -> (s: &'static str)
        ensures
            s@ == view_label(self),
    {
        match self {
            View::FrameTime => "Frame Time Timeline",
            View::Report => "Performance Report",
            View::Histogram => "Frame Time Histogram",
            View::Gpu => "GPU Monitor",
            View::Cpu => "CPU Monitor",
            View::Latency => "Latency Analysis",
        }
    }

    /// The short machine name, used in file names.
    pub fn slug(self) -> (s: &'static str)
        ensures
            s@ == view_slug(self),
    {
        match self {
            View::FrameTime => "frame_time",
            View::Report => "report",
            View::Histogram => "histogram",
            View::Gpu => "gpu",
            View::Cpu => "cpu",
            View::Latency => "latency",
        }
    }

    /// Output file name, e.g. `01_frame_time.png`.
    pub fn file_name(self) -> (s: String)
        ensures
            s@ == view_file_name(self),
    {
        let n = self.number();
        let mut s = String::from_str("0");
        proof {
            reveal_strlit("0");
        }
        s.append(decimal_string(n).as_str());
        assert(s@ == two_digits(view_number(self))) by {
            reveal_with_fuel(crate::text::decimal, 2);
        }
        s.append("_");
        s.append(self.slug());
        s.append(".png");
        s
    }

    /// 1-based view number.
    pub fn number(self) -> (n: usize)
        ensures
            n == view_number(self),
    {
        match self {
            View::FrameTime => 1,
            View::Report => 2,
            View::Histogram => 3,
            View::Gpu => 4,
            View::Cpu => 5,
            View::Latency => 6,
        }
    }
}

impl From<u32> for View {
    fn from(v: u32) -> (r: View) {
        match v {
            2 => View::Report,
            3 => View::Histogram,
            4 => View::Gpu,
            5 => View::Cpu,
            6 => View::Latency,
            _ => View::FrameTime,
        }
    }
}

impl vstd::std_specs::convert::FromSpecImpl<u32> for View {
    open spec fn obeys_from_spec() -> bool {
        true
    }

    open spec fn from_spec(v: u32) -> View {
        view_from_number(v)
    }
}


/// A view's number lies in `1..=6`, and converting that number back gives the
/// same view.
pub proof fn lemma_number_roundtrip(v: View)
    ensures
        1 <= view_number(v) <= 6,
        view_from_number(view_number(v) as u32) == v,
{
}

/// `View::ALL` holds the six views in the order of their numbers, so each view
/// appears exactly once.
pub proof fn lemma_all_in_number_order()
    ensures
        View::ALL@ == all_views(),
        forall|i: int| 0 <= i < 6 ==> view_number(#[trigger] all_views()[i]) == i + 1,
        forall|v: View| all_views()[view_number(v) - 1] == v,
{
    assert(View::ALL@ =~= all_views());
}

} // verus!
