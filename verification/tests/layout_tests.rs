use frameview_gui::histogram::{histogram_peak, tally_bins, BinSlot, HistPeak, BIN_N};
use frameview_gui::layout::{
    core_panel_options, report_shown, report_size, shown_core_count, view_size, PanelOptions,
};
use frameview_gui::view::View;

#[test]
fn report_size_grows_then_caps() {
    assert_eq!(report_size(0), (1200, 500));
    assert_eq!(report_size(3), (1200, 560));
    assert_eq!(report_size(40), (1200, 1300));
    assert_eq!(report_size(41), (1200, 1300));
    assert_eq!(report_size(usize::MAX), (1200, 1300));
    assert_eq!(report_shown(7), 7);
    assert_eq!(report_shown(100), 40);
}

#[test]
fn view_sizes() {
    assert_eq!(view_size(View::FrameTime, 5), (1700, 1050));
    assert_eq!(view_size(View::Report, 5), (1200, 600));
    assert_eq!(view_size(View::Histogram, 5), (1700, 900));
    assert_eq!(view_size(View::Latency, 0), (1700, 900));
}

#[test]
fn panel_options() {
    assert_eq!(PanelOptions::default(), PanelOptions { legend: true, annotate: true });
    assert_eq!(core_panel_options(24), PanelOptions { legend: true, annotate: false });
    assert_eq!(core_panel_options(25), PanelOptions { legend: false, annotate: false });
}

#[test]
fn shown_cores() {
    assert_eq!(shown_core_count(&vec![true, false, true, false], 64), 3);
    assert_eq!(shown_core_count(&vec![false, false], 64), 64);
    assert_eq!(shown_core_count(&vec![], 64), 64);
}

#[test]
fn tally_counts_every_frame_once() {
    let slots = vec![
        BinSlot::Bin(3),
        BinSlot::Below,
        BinSlot::Overflow,
        BinSlot::Bin(0),
        BinSlot::Bin(3),
        BinSlot::Bin(59),
        BinSlot::Overflow,
    ];
    let (bins, overflow) = tally_bins(&slots);
    assert_eq!(bins.len(), BIN_N);
    assert_eq!(bins[0], 2);
    assert_eq!(bins[3], 2);
    assert_eq!(bins[59], 1);
    assert_eq!(overflow, 2);
    assert_eq!(bins.iter().sum::<u64>() + overflow, slots.len() as u64);
}

#[test]
fn peak_is_first_tallest_bin() {
    assert_eq!(
        histogram_peak(&vec![1, 4, 2, 4], 3),
        HistPeak { max_count: 4, peak_idx: 1, peak_count: 4 }
    );
    assert_eq!(
        histogram_peak(&vec![1, 4, 2], 9),
        HistPeak { max_count: 9, peak_idx: 1, peak_count: 4 }
    );
    assert_eq!(
        histogram_peak(&vec![0, 0, 0], 0),
        HistPeak { max_count: 1, peak_idx: 0, peak_count: 0 }
    );
    assert_eq!(histogram_peak(&vec![], 0), HistPeak { max_count: 1, peak_idx: 0, peak_count: 0 });
}
