//! Canvas sizes and panel options of the charts.
use vstd::prelude::*;

use crate::view::View;
use vstd::view::View as _;

verus! {

/// Canvas width of the monitor charts.
pub const IMG_W: u32 = 1700;

/// Canvas height of the monitor charts.
pub const IMG_H: u32 = 900;

/// Canvas height of the (taller) frame-time chart.
pub const IMG_H_TALL: u32 = 1050;

/// Canvas width of the performance report.
pub const REPORT_W: u32 = 1200;

/// The most stutter events the report lists one by one.
pub const REPORT_MAX_EVENTS: usize = 40;

/// How many stutter events the report lists one by one.
pub open spec fn report_rows(stutter_num: nat) -> nat {
    if stutter_num < REPORT_MAX_EVENTS {
        stutter_num
    } else {
        REPORT_MAX_EVENTS as nat
    }
}

/// The report's canvas height: 500 pixels plus 20 per listed event.
pub open spec fn report_height(stutter_num: nat) -> nat {
    500 + report_rows(stutter_num) * 20
}

/// The canvas size of a view.
pub open spec fn view_size_of(view: View, stutter_num: nat) -> (u32, u32) {
    match view {
        View::FrameTime => (IMG_W, IMG_H_TALL),
        View::Report => (REPORT_W, report_height(stutter_num) as u32),
        _ => (IMG_W, IMG_H),
    }
}

/// How many stutter events the report lists one by one (the rest are summed up
/// in a final line).
pub fn report_shown(stutter_num: usize) -> (r: usize)
    ensures
        r == report_rows(stutter_num as nat),
{
    if stutter_num < REPORT_MAX_EVENTS {
        stutter_num
    } else {
        REPORT_MAX_EVENTS
    }
}

/// The report's natural canvas size, which grows with the number of stutter events.
pub fn report_size(stutter_num: usize) -> (r: (u32, u32))
    ensures
        r == (REPORT_W, report_height(stutter_num as nat) as u32),
        r.1 == report_height(stutter_num as nat),
{
    let shown = report_shown(stutter_num);
    (REPORT_W, (500 + shown * 20) as u32)
}

/// The canvas size of a view: the frame-time chart is taller to fit its stats
/// banner and the report grows with its stutter-event list.
pub fn view_size(view: View, stutter_num: usize) -> (r: (u32, u32))
    ensures
        r == view_size_of(view, stutter_num as nat),
{
    match view {
        View::FrameTime => (IMG_W, IMG_H_TALL),
        View::Report => report_size(stutter_num),
        _ => (IMG_W, IMG_H),
    }
}

/// The report grows by one row per stutter event up to `REPORT_MAX_EVENTS`
/// events, and no further: its height never falls as events are added and
/// never exceeds that of `REPORT_MAX_EVENTS` rows.
pub proof fn lemma_report_height_grows_bounded(a: nat, b: nat)
    requires
        a <= b,
    ensures
        report_height(a) <= report_height(b),
        report_height(b) <= 500 + REPORT_MAX_EVENTS * 20,
        b <= REPORT_MAX_EVENTS ==> report_height(b) == 500 + b * 20,
{
}

/// Options controlling how a panel is drawn.
#[derive(Clone, Copy, PartialEq, Eq, Debug, Structural)]
pub struct PanelOptions {
    /// Draw a legend with a colored swatch per series.
    pub legend: bool,
    /// Mark and label each series' lowest and highest points.
    pub annotate: bool,
}

impl Default for PanelOptions {
    fn default() -> (r: PanelOptions)
        ensures
            r == (PanelOptions { legend: true, annotate: true }),
    {
        PanelOptions { legend: true, annotate: true }
    }
}

/// The most cores whose series get their own legend entry.
pub const CORE_LEGEND_MAX: usize = 24;

/// How many per-core series the CPU chart draws, given for each core whether
/// any frame holds a value for it: up to the last core with data, or every
/// core when none has any.
pub open spec fn shown_cores_of(has_data: Seq<bool>) -> nat
    decreases has_data.len(),
{
    if has_data.len() == 0 {
        0
    } else if has_data.last() {
        has_data.len()
    } else {
        shown_cores_of(has_data.drop_last())
    }
}

/// How many per-core series the CPU chart draws: up to the last core that has
/// data (`has_data[c]`), or `all` when no core has any.
pub fn shown_core_count(has_data: &Vec<bool>, all: usize) -> (r: usize)
    ensures
        shown_cores_of(has_data@) > 0 ==> r == shown_cores_of(has_data@),
        shown_cores_of(has_data@) == 0 ==> r == all,
{
    let mut n = has_data.len();
    assert(has_data@.take(n as int) =~= has_data@);
    while n > 0 && !has_data[n - 1]
        invariant
            n <= has_data.len(),
            shown_cores_of(has_data@) == shown_cores_of(has_data@.take(n as int)),
        decreases n,
    {
        assert(has_data@.take(n as int).drop_last() =~= has_data@.take(n - 1));
        n = n - 1;
    }
    proof {
        if n > 0 {
            assert(has_data@.take(n as int).last() == has_data@[n - 1]);
        }
    }
    if n == 0 {
        all
    } else {
        n
    }
}

/// Options for the per-core panel: a legend only while there are at most
/// `CORE_LEGEND_MAX` cores, and no min/max annotations.
pub fn core_panel_options(cores: usize) -> (r: PanelOptions)
    ensures
        r == (PanelOptions { legend: cores <= CORE_LEGEND_MAX, annotate: false }),
{
    PanelOptions { legend: cores <= CORE_LEGEND_MAX, annotate: false }
}


/// Every chart is a landscape `IMG_W` by `IMG_H` canvas, except the taller
/// frame-time chart (`IMG_W` by `IMG_H_TALL`) and the report, which is
/// `REPORT_W` wide and 500 pixels plus 20 per listed stutter event (at most
/// `REPORT_MAX_EVENTS`) high.
pub proof fn lemma_view_sizes(v: View, stutter_num: nat)
    ensures
        v != View::FrameTime && v != View::Report ==> view_size_of(v, stutter_num) == (
            IMG_W,
            IMG_H,
        ),
        v == View::FrameTime ==> view_size_of(v, stutter_num) == (IMG_W, IMG_H_TALL),
        v == View::Report ==> view_size_of(v, stutter_num).0 == REPORT_W,
        v == View::Report && stutter_num <= REPORT_MAX_EVENTS ==> view_size_of(
            v,
            stutter_num,
        ).1 == 500 + 20 * stutter_num,
        v == View::Report && stutter_num > REPORT_MAX_EVENTS ==> view_size_of(
            v,
            stutter_num,
        ).1 == 500 + 20 * REPORT_MAX_EVENTS,
        view_size_of(v, stutter_num).0 > view_size_of(v, stutter_num).1 || v == View::Report,
{
}

} // verus!
