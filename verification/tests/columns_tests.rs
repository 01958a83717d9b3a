use frameview_gui::columns::{
    cell, column_index, core_columns, core_of, gpu_columns, raw_frame, resolve_columns,
    session_info, GpuColumns, LoadError, MAX_CORES,
};

fn row(items: &[&str]) -> Vec<String> {
    items.iter().map(|s| s.to_string()).collect()
}

fn frame_header() -> Vec<String> {
    row(&[
        "Application",
        "GPU",
        "CPU",
        "Resolution",
        "Runtime",
        "TimeInSeconds",
        "MsBetweenPresents",
        "MsInPresentAPI",
        "GPU0Util(%)",
        "GPU0Clk(MHz)",
        "GPU0MemClk(MHz)",
        "GPU0Temp(C)",
        "GPU1Util(%)",
        "GPU1Temp(C)",
        "CPUUtil(%)",
        "CPUCoreUtil%[ 0]",
        "CPUCoreUtil%[ 1]",
        "CPUCoreUtil%[10]",
    ])
}

#[test]
fn column_index_finds_last_occurrence() {
    let h = row(&["a", "b", "a", "c"]);
    assert_eq!(column_index(&h, "a"), 2);
    assert_eq!(column_index(&h, "b"), 1);
    assert_eq!(column_index(&h, "z"), usize::MAX);
}

#[test]
fn cell_trims_and_defaults_to_empty() {
    let r = row(&[" Game.exe ", "\t12.5", ""]);
    assert_eq!(cell(&r, 0), "Game.exe");
    assert_eq!(cell(&r, 1), "12.5");
    assert_eq!(cell(&r, 2), "");
    assert_eq!(cell(&r, 3), "");
    assert_eq!(cell(&r, usize::MAX), "");
}

#[test]
fn core_names_tolerate_padding() {
    assert_eq!(core_of("CPUCoreUtil%[ 3]"), Some(3));
    assert_eq!(core_of("CPUCoreUtil%[3]"), Some(3));
    assert_eq!(core_of("CPUCoreUtil%[12]"), Some(12));
    assert_eq!(core_of("CPUCoreUtil%[ 63]"), Some(63));
    assert_eq!(core_of("CPUCoreUtil%[64]"), None);
    assert_eq!(core_of("CPUCoreUtil%[x]"), None);
    assert_eq!(core_of("CPUCoreUtil%[ 5"), None);
    assert_eq!(core_of("CPUCoreUtil%[]"), None);
    assert_eq!(core_of("CPUCoreUtil%"), None);
    assert_eq!(core_of("CPUUtil(%)"), None);
    assert_eq!(core_of("CPUCoreUtil%[7]x]"), Some(7));
}

#[test]
fn core_columns_map_each_core() {
    let cores = core_columns(&frame_header());
    assert_eq!(cores.len(), MAX_CORES);
    assert_eq!(cores[0], 15);
    assert_eq!(cores[1], 16);
    assert_eq!(cores[10], 17);
    assert_eq!(cores[2], usize::MAX);
    assert_eq!(cores[63], usize::MAX);
}

#[test]
fn core_columns_later_header_wins() {
    let h = row(&["CPUCoreUtil%[ 2]", "x", "CPUCoreUtil%[2]"]);
    assert_eq!(core_columns(&h)[2], 2);
}

#[test]
fn gpu_columns_detects_contiguous_run() {
    let g = gpu_columns(&frame_header());
    assert_eq!(
        g,
        vec![
            GpuColumns { util: 8, clk: 9, mem_clk: 10, temp: 11 },
            GpuColumns { util: 12, clk: usize::MAX, mem_clk: usize::MAX, temp: 13 },
        ]
    );
}

#[test]
fn gpu_columns_may_start_later_and_stop_at_gap() {
    let h = row(&["GPU2Clk(MHz)", "GPU3Temp(C)", "GPU5Util(%)"]);
    let g = gpu_columns(&h);
    assert_eq!(
        g,
        vec![
            GpuColumns { util: usize::MAX, clk: 0, mem_clk: usize::MAX, temp: usize::MAX },
            GpuColumns { util: usize::MAX, clk: usize::MAX, mem_clk: usize::MAX, temp: 1 },
        ]
    );
    assert!(gpu_columns(&row(&["a", "b"])).is_empty());
    let h15 = row(&["GPU15Util(%)"]);
    assert_eq!(gpu_columns(&h15).len(), 1);
}

#[test]
fn resolve_rejects_summary_file() {
    let h = row(&["Application", "Log Name", "Avg FPS"]);
    assert_eq!(resolve_columns(&h).err(), Some(LoadError::SummaryFile));
}

#[test]
fn resolve_rejects_other_files() {
    let h = row(&["Application", "TimeInSeconds"]);
    assert_eq!(resolve_columns(&h).err(), Some(LoadError::NotFrameLog));
    assert_eq!(resolve_columns(&Vec::new()).err(), Some(LoadError::NotFrameLog));
}

#[test]
fn error_messages() {
    assert_eq!(LoadError::NoDataRows.message(), "no data rows parsed");
    assert!(LoadError::SummaryFile.message().starts_with("this is a FrameView summary file"));
    assert_eq!(
        LoadError::NotFrameLog.message(),
        "not a FrameView per-frame capture log: no `TimeInSeconds` / `MsBetweenPresents` column in the header"
    );
}

#[test]
fn resolve_and_read_a_record() {
    let h = frame_header();
    let cols = resolve_columns(&h).ok().unwrap();
    assert_eq!(cols.time, 5);
    assert_eq!(cols.frame, 6);
    assert_eq!(cols.present_api, 7);
    assert_eq!(cols.present_latency, usize::MAX);
    assert_eq!(cols.cpu_util, 14);
    assert_eq!(cols.gpus.len(), 2);
    let rec = row(&[
        "Game.exe", " RTX ", "Ryzen", "2560x1440", "DX12", "0.016", " 16.7 ", "0.4", "97", "2500",
        "10000", "70", "12", "55", "40", "31", "32",
    ]);
    let info = session_info(&rec, &cols);
    assert_eq!(info.app, "Game.exe");
    assert_eq!(info.gpu, "RTX");
    assert_eq!(info.runtime, "DX12");
    let f = raw_frame(&rec, &cols);
    assert_eq!(f.time, "0.016");
    assert_eq!(f.frame, "16.7");
    assert_eq!(f.present_latency, "");
    assert_eq!(f.gpus.len(), 2);
    assert_eq!(f.gpus[0].util, "97");
    assert_eq!(f.gpus[1].clk, "");
    assert_eq!(f.gpus[1].temp, "55");
    assert_eq!(f.cores.len(), MAX_CORES);
    assert_eq!(f.cores[0], "31");
    assert_eq!(f.cores[1], "32");
    assert_eq!(f.cores[10], "");
}

#[test]
fn lookup_ignores_column_order() {
    let h1 = row(&["TimeInSeconds", "MsBetweenPresents", "Application"]);
    let r1 = row(&["1.5", "16.6", "Game"]);
    let h2 = row(&["Application", "MsBetweenPresents", "TimeInSeconds"]);
    let r2 = row(&["Game", "16.6", "1.5"]);
    for name in ["TimeInSeconds", "MsBetweenPresents", "Application", "Missing"] {
        assert_eq!(cell(&r1, column_index(&h1, name)), cell(&r2, column_index(&h2, name)));
    }
}
