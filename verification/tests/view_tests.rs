use frameview_gui::view::View;

#[test]
fn labels_match_chart_titles() {
    assert_eq!(View::FrameTime.label(), "Frame Time Timeline");
    assert_eq!(View::Report.label(), "Performance Report");
    assert_eq!(View::Histogram.label(), "Frame Time Histogram");
    assert_eq!(View::Gpu.label(), "GPU Monitor");
    assert_eq!(View::Cpu.label(), "CPU Monitor");
    assert_eq!(View::Latency.label(), "Latency Analysis");
}

#[test]
fn slugs_and_numbers() {
    let slugs: Vec<&str> = View::ALL.iter().map(|v| v.slug()).collect();
    assert_eq!(slugs, vec!["frame_time", "report", "histogram", "gpu", "cpu", "latency"]);
    let numbers: Vec<usize> = View::ALL.iter().map(|v| v.number()).collect();
    assert_eq!(numbers, vec![1, 2, 3, 4, 5, 6]);
}

#[test]
fn file_names_are_zero_padded() {
    assert_eq!(View::FrameTime.file_name(), "01_frame_time.png");
    assert_eq!(View::Report.file_name(), "02_report.png");
    assert_eq!(View::Histogram.file_name(), "03_histogram.png");
    assert_eq!(View::Gpu.file_name(), "04_gpu.png");
    assert_eq!(View::Cpu.file_name(), "05_cpu.png");
    assert_eq!(View::Latency.file_name(), "06_latency.png");
}

#[test]
fn from_number_selects_view() {
    assert_eq!(View::from(1u32), View::FrameTime);
    assert_eq!(View::from(2u32), View::Report);
    assert_eq!(View::from(3u32), View::Histogram);
    assert_eq!(View::from(4u32), View::Gpu);
    assert_eq!(View::from(5u32), View::Cpu);
    assert_eq!(View::from(6u32), View::Latency);
}

#[test]
fn from_out_of_range_number_is_first_view() {
    assert_eq!(View::from(0u32), View::FrameTime);
    assert_eq!(View::from(7u32), View::FrameTime);
    assert_eq!(View::from(u32::MAX), View::FrameTime);
}

#[test]
fn number_roundtrips_through_from() {
    for v in View::ALL {
        assert_eq!(View::from(v.number() as u32), v);
    }
}
