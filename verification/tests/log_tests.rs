use frameview_gui::columns::LoadError;
use frameview_gui::log::{load_log, log_from_rows};

const LOG: &str = "Application,GPU,CPU,Resolution,Runtime,TimeInSeconds,MsBetweenPresents,GPU0Util(%),CPUCoreUtil%[ 1]\n\
Game.exe, RTX 4090 ,Ryzen,2560x1440,DX12,0.000,16.6,97,31\n\
Game.exe,RTX 4090,Ryzen,2560x1440,DX12,0.017,\"1.8e15\",95,\n";

#[test]
fn loads_every_record() {
    let log = load_log(LOG.as_bytes()).ok().unwrap();
    assert_eq!(log.info.app, "Game.exe");
    assert_eq!(log.info.gpu, "RTX 4090");
    assert_eq!(log.info.runtime, "DX12");
    assert_eq!(log.cols.time, 5);
    assert_eq!(log.cols.gpus.len(), 1);
    assert_eq!(log.frames.len(), 2);
    assert_eq!(log.frames[0].time, "0.000");
    assert_eq!(log.frames[0].frame, "16.6");
    assert_eq!(log.frames[0].gpus[0].util, "97");
    assert_eq!(log.frames[0].cores[1], "31");
    assert_eq!(log.frames[1].frame, "1.8e15");
    assert_eq!(log.frames[1].cores[1], "");
    assert_eq!(log.frames[1].present_api, "");
}

#[test]
fn summary_file_is_refused() {
    let text = "Application,Log Name,Avg FPS\nGame,FrameView_Game_Log.csv,60\n";
    assert_eq!(load_log(text.as_bytes()).err(), Some(LoadError::SummaryFile));
}

#[test]
fn log_without_frame_columns_is_refused() {
    let text = "Application,TimeInSeconds\nGame,0.1\n";
    assert_eq!(load_log(text.as_bytes()).err(), Some(LoadError::NotFrameLog));
    assert_eq!(load_log(b"").err(), Some(LoadError::NotFrameLog));
}

#[test]
fn header_only_has_no_data_rows() {
    let text = "TimeInSeconds,MsBetweenPresents\n";
    let e = load_log(text.as_bytes()).err().unwrap();
    assert_eq!(e, LoadError::NoDataRows);
    assert_eq!(e.message(), "no data rows parsed");
}

#[test]
fn malformed_record_is_a_csv_error() {
    let text = "TimeInSeconds,MsBetweenPresents\n0.1,16.6\n0.2,16.6,extra\n";
    let expected = csv::Reader::from_reader(text.as_bytes())
        .records()
        .find_map(|r| r.err())
        .unwrap()
        .to_string();
    match load_log(text.as_bytes()).err() {
        Some(LoadError::Csv(m)) => {
            assert_eq!(m, expected);
            assert_eq!(LoadError::Csv(m.clone()).message(), m);
        }
        other => panic!("unexpected {other:?}"),
    }
}

#[test]
fn header_with_invalid_utf8_is_a_csv_error() {
    let text: &[u8] = b"TimeInSeconds,\xff\xfe\n0.1,16.6\n";
    assert!(matches!(load_log(text).err(), Some(LoadError::Csv(_))));
}

#[test]
fn quoted_fields_are_unquoted() {
    let text = "\"TimeInSeconds\",\"MsBetweenPresents\",Application\n1.0,\"2.5\",\"My, Game\"\n";
    let log = load_log(text.as_bytes()).ok().unwrap();
    assert_eq!(log.frames[0].frame, "2.5");
    assert_eq!(log.info.app, "My, Game");
}

#[test]
fn loaded_log_ignores_column_order() {
    let a = "TimeInSeconds,MsBetweenPresents,Application,CPUCoreUtil%[0],GPU0Temp(C)\n1.0,16.6,Game,40,70\n2.0,33.3,Game,41,71\n";
    let b = "GPU0Temp(C),Application,CPUCoreUtil%[0],MsBetweenPresents,TimeInSeconds\n70,Game,40,16.6,1.0\n71,Game,41,33.3,2.0\n";
    let la = load_log(a.as_bytes()).ok().unwrap();
    let lb = load_log(b.as_bytes()).ok().unwrap();
    assert_eq!(la.info.app, lb.info.app);
    assert_eq!(la.frames.len(), lb.frames.len());
    for (fa, fb) in la.frames.iter().zip(lb.frames.iter()) {
        assert_eq!(fa.time, fb.time);
        assert_eq!(fa.frame, fb.frame);
        assert_eq!(fa.cores, fb.cores);
        assert_eq!(fa.gpus[0].temp, fb.gpus[0].temp);
    }
}

fn row(items: &[&str]) -> Vec<String> {
    items.iter().map(|s| s.to_string()).collect()
}

#[test]
fn log_from_given_rows() {
    let header = row(&["Application", "TimeInSeconds", "MsBetweenPresents"]);
    let records = vec![row(&[" Game ", "0.5", "16.6"]), row(&["Game", "0.6"])];
    let log = log_from_rows(&header, &records).ok().unwrap();
    assert_eq!(log.info.app, "Game");
    assert_eq!(log.frames.len(), 2);
    assert_eq!(log.frames[0].frame, "16.6");
    assert_eq!(log.frames[1].frame, "");
    assert_eq!(log_from_rows(&header, &Vec::new()).err(), Some(LoadError::NoDataRows));
    let summary = row(&["Log Name"]);
    assert_eq!(log_from_rows(&summary, &records).err(), Some(LoadError::SummaryFile));
    assert_eq!(log_from_rows(&row(&["x"]), &records).err(), Some(LoadError::NotFrameLog));
}
