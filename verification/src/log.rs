//! Loading a FrameView capture log from its CSV text: the header is resolved
//! into columns, then every record is split into the cells of one frame sample.
//!
//! The CSV syntax itself (quoting, separators, line ends) is read by the `csv`
//! crate with its default settings: comma-separated, the first row being the
//! header, every record having as many fields as the header.
use vstd::prelude::*;

use crate::columns::{
    cell_of, column_of, columns_match, distinct_cores, has_column, is_reordering, lacks_frame_columns,
    lemma_frame_cells_by_name, lemma_frame_ignores_column_order, lemma_has_column_reorder, lemma_lookup_ignores_column_order,
    raw_frame, raw_frame_of, reorder, resolve_columns, row_names, same_frame_cells, session_info,
    Columns, LoadError, RawFrame, SessionInfo,
};

verus! {

/// What the `csv` crate reads as the header row of a CSV text: the fields, or
/// the text of the error it reports there.
pub uninterp spec fn csv_header(text: Seq<u8>) -> Result<Seq<Seq<char>>, Seq<char>>;

/// What the `csv` crate reads as the records (the rows after the header) of a
/// CSV text: their fields, or the text of the first error it reports.
pub uninterp spec fn csv_records(text: Seq<u8>) -> Result<Seq<Seq<Seq<char>>>, Seq<char>>;

/// The header row of a CSV text, read by `csv::Reader::from_reader` and
/// `Reader::headers`. The contract claims that the outcome, the fields read or
/// the reader's error message, is what `csv_header` names for the same bytes.
#[verifier::external_body]
fn read_csv_header(text: &[u8]) -> (r: Result<Vec<String>, String>)
    ensures
        r matches Ok(h) ==> (csv_header(text@) matches Ok(hs) && hs == row_names(h@)),
        r matches Err(m) ==> (csv_header(text@) matches Err(e) && e == m@),
{
    let mut rdr = csv::Reader::from_reader(text);
    match rdr.headers() {
        Ok(h) => Ok(h.iter().map(|c| c.to_string()).collect()),
        Err(e) => Err(e.to_string()),
    }
}

/// The records of a CSV text, read by `csv::Reader::from_reader` and
/// `Reader::records`. The contract claims that the outcome, the fields read or
/// the reader's first error message, is what `csv_records` names for the same
/// bytes.
#[verifier::external_body]
fn read_csv_records(text: &[u8]) -> (r: Result<Vec<Vec<String>>, String>)
    ensures
        r matches Ok(rs) ==> (csv_records(text@) matches Ok(recs) && recs == rows_of(rs@)),
        r matches Err(m) ==> (csv_records(text@) matches Err(e) && e == m@),
{
    let mut rdr = csv::Reader::from_reader(text);
    let mut rows: Vec<Vec<String>> = Vec::new();
    for rec in rdr.records() {
        match rec {
            Ok(rec) => rows.push(rec.iter().map(|c| c.to_string()).collect()),
            Err(e) => return Err(e.to_string()),
        }
    }
    Ok(rows)
}

/// The cells of a loaded capture log: its columns, its descriptive fields
/// (from the first record) and the cells of every frame.
pub struct LogCells {
    pub cols: Columns,
    pub info: SessionInfo,
    pub frames: Vec<RawFrame>,
}

/// `log` holds the columns of header `hs`, the descriptive fields of the first
/// record, and one frame per record, in order.
pub open spec fn log_cells_match(log: LogCells, hs: Seq<Seq<char>>, recs: Seq<Seq<Seq<char>>>) -> bool {
    &&& recs.len() > 0
    &&& columns_match(log.cols, hs)
    &&& log.info.app@ == cell_of(recs[0], log.cols.app)
    &&& log.info.gpu@ == cell_of(recs[0], log.cols.gpu)
    &&& log.info.cpu@ == cell_of(recs[0], log.cols.cpu)
    &&& log.info.resolution@ == cell_of(recs[0], log.cols.resolution)
    &&& log.info.runtime@ == cell_of(recs[0], log.cols.runtime)
    &&& log.frames.len() == recs.len()
    &&& forall|j: int|
        0 <= j < recs.len() ==> raw_frame_of(#[trigger] log.frames@[j], recs[j], log.cols)
}

/// `r` is a CSV error carrying the message `m`.
pub open spec fn is_csv_error(r: Result<LogCells, LoadError>, m: Seq<char>) -> bool {
    r matches Err(LoadError::Csv(s)) && s@ == m
}

/// The outcome of loading a log whose header and records read as given: a CSV
/// error in the header; then a refused header (a summary file, or a log
/// without the per-frame columns); then a CSV error in the records; then no
/// records at all; otherwise the cells of every record.
pub open spec fn log_result(
    header: Result<Seq<Seq<char>>, Seq<char>>,
    records: Result<Seq<Seq<Seq<char>>>, Seq<char>>,
    r: Result<LogCells, LoadError>,
) -> bool {
    match header {
        Err(m) => is_csv_error(r, m),
        Ok(hs) => if lacks_frame_columns(hs) {
            r == Err::<LogCells, LoadError>(
                if has_column(hs, "Log Name"@) {
                    LoadError::SummaryFile
                } else {
                    LoadError::NotFrameLog
                },
            )
        } else {
            match records {
                Err(m) => is_csv_error(r, m),
                Ok(recs) => if recs.len() == 0 {
                    r == Err::<LogCells, LoadError>(LoadError::NoDataRows)
                } else {
                    r matches Ok(log) && log_cells_match(log, hs, recs)
                },
            }
        },
    }
}

/// The rows of a text as character sequences.
pub open spec fn rows_of(records: Seq<Vec<String>>) -> Seq<Seq<Seq<char>>> {
    records.map_values(|x: Vec<String>| row_names(x@))
}

/// The cells of every record under a header already resolved into `cols`.
fn cells_of_records(header: &Vec<String>, cols: Columns, records: &Vec<Vec<String>>) -> (r: Result<
    LogCells,
    LoadError,
>)
    requires
        !lacks_frame_columns(row_names(header@)),
        columns_match(cols, row_names(header@)),
    ensures
        log_result(
            Ok::<Seq<Seq<char>>, Seq<char>>(row_names(header@)),
            Ok::<Seq<Seq<Seq<char>>>, Seq<char>>(rows_of(records@)),
            r,
        ),
{
    let ghost recs = rows_of(records@);
    if records.len() == 0 {
        return Err(LoadError::NoDataRows);
    }
    let info = session_info(&records[0], &cols);
    let mut frames: Vec<RawFrame> = Vec::new();
    let mut j: usize = 0;
    while j < records.len()
        invariant
            j <= records.len(),
            frames.len() == j,
            recs == rows_of(records@),
            forall|k: int| 0 <= k < j ==> raw_frame_of(#[trigger] frames@[k], recs[k], cols),
        decreases records.len() - j,
    {
        frames.push(raw_frame(&records[j], &cols));
        j = j + 1;
    }
    Ok(LogCells { cols, info, frames })
}

/// Builds a capture log from its header row and records: the header is
/// resolved (and refused when it lacks the per-frame columns), then every
/// record is split into the cells of one frame.
pub fn log_from_rows(header: &Vec<String>, records: &Vec<Vec<String>>) -> (r: Result<
    LogCells,
    LoadError,
>)
    ensures
        log_result(
            Ok::<Seq<Seq<char>>, Seq<char>>(row_names(header@)),
            Ok::<Seq<Seq<Seq<char>>>, Seq<char>>(rows_of(records@)),
            r,
        ),
{
    match resolve_columns(header) {
        Ok(cols) => cells_of_records(header, cols, records),
        Err(e) => Err(e),
    }
}

/// Loads a capture log from its CSV text. The header is read and checked
/// before any record is read.
pub fn load_log(text: &[u8]) -> (r: Result<LogCells, LoadError>)
    ensures
        log_result(csv_header(text@), csv_records(text@), r),
        csv_header(text@) matches Ok(hs) ==> hs.len() <= usize::MAX,
{
    let header = match read_csv_header(text) {
        Ok(h) => h,
        Err(m) => return Err(LoadError::Csv(m)),
    };
    assert(row_names(header@).len() == header.len());
    let cols = match resolve_columns(&header) {
        Ok(c) => c,
        Err(e) => return Err(e),
    };
    let records = match read_csv_records(text) {
        Ok(rs) => rs,
        Err(m) => return Err(LoadError::Csv(m)),
    };
    cells_of_records(&header, cols, &records)
}

/// Two loaded logs hold the same text in every descriptive field and every
/// cell of every frame.
pub open spec fn same_log_cells(a: LogCells, b: LogCells) -> bool {
    &&& a.info.app@ == b.info.app@
    &&& a.info.gpu@ == b.info.gpu@
    &&& a.info.cpu@ == b.info.cpu@
    &&& a.info.resolution@ == b.info.resolution@
    &&& a.info.runtime@ == b.info.runtime@
    &&& a.frames.len() == b.frames.len()
    &&& forall|j: int|
        0 <= j < a.frames.len() ==> same_frame_cells(#[trigger] a.frames@[j], b.frames@[j])
}

/// Columns are found by their header names, whatever their order: when the
/// header names no column twice and no core twice, a log whose header and
/// every record are reordered in the same way loads to the same outcome (the
/// same error, or a log with the same text in every field and every cell).
pub proof fn lemma_log_ignores_column_order(
    hs: Seq<Seq<char>>,
    recs: Seq<Seq<Seq<char>>>,
    perm: Seq<int>,
    ra: Result<LogCells, LoadError>,
    rb: Result<LogCells, LoadError>,
)
    requires
        hs.no_duplicates(),
        distinct_cores(hs),
        hs.len() <= usize::MAX,
        is_reordering(perm, hs.len()),
        forall|j: int| 0 <= j < recs.len() ==> (#[trigger] recs[j]).len() == hs.len(),
        log_result(Ok(hs), Ok(recs), ra),
        log_result(
            Ok(reorder(hs, perm)),
            Ok(recs.map_values(|rec: Seq<Seq<char>>| reorder(rec, perm))),
            rb,
        ),
    ensures
        ra is Ok <==> rb is Ok,
        ra matches Err(e) ==> rb == Err::<LogCells, LoadError>(e),
        ra matches Ok(la) ==> rb matches Ok(lb) && same_log_cells(la, lb),
{
    let phs = reorder(hs, perm);
    let precs = recs.map_values(|rec: Seq<Seq<char>>| reorder(rec, perm));
    lemma_has_column_reorder(hs, perm, "TimeInSeconds"@);
    lemma_has_column_reorder(hs, perm, "MsBetweenPresents"@);
    lemma_has_column_reorder(hs, perm, "Log Name"@);
    if let Ok(la) = ra {
        if let Ok(lb) = rb {
            lemma_lookup_ignores_column_order(hs, recs[0], perm, "Application"@);
            lemma_lookup_ignores_column_order(hs, recs[0], perm, "GPU"@);
            lemma_lookup_ignores_column_order(hs, recs[0], perm, "CPU"@);
            lemma_lookup_ignores_column_order(hs, recs[0], perm, "Resolution"@);
            lemma_lookup_ignores_column_order(hs, recs[0], perm, "Runtime"@);
            assert(precs[0] == reorder(recs[0], perm));
            assert forall|j: int| 0 <= j < la.frames.len() implies same_frame_cells(
                #[trigger] la.frames@[j],
                lb.frames@[j],
            ) by {
                assert(precs[j] == reorder(recs[j], perm));
                lemma_frame_ignores_column_order(
                    hs,
                    recs[j],
                    perm,
                    la.cols,
                    lb.cols,
                    la.frames@[j],
                    lb.frames@[j],
                );
            }
        }
    }
}


/// A loaded log takes every field from the column whose header carries that
/// field's FrameView name: the descriptive fields from the first record, and
/// every frame's measurement cells from its own record.
pub proof fn lemma_loaded_cells_by_name(
    hs: Seq<Seq<char>>,
    recs: Seq<Seq<Seq<char>>>,
    r: Result<LogCells, LoadError>,
)
    requires
        log_result(Ok(hs), Ok(recs), r),
    ensures
        r matches Ok(log) ==> log.info.app@ == cell_of(recs[0], column_of(hs, "Application"@)),
        r matches Ok(log) ==> log.info.gpu@ == cell_of(recs[0], column_of(hs, "GPU"@)),
        r matches Ok(log) ==> log.info.cpu@ == cell_of(recs[0], column_of(hs, "CPU"@)),
        r matches Ok(log) ==> log.info.resolution@ == cell_of(recs[0], column_of(hs, "Resolution"@)),
        r matches Ok(log) ==> log.info.runtime@ == cell_of(recs[0], column_of(hs, "Runtime"@)),
        r matches Ok(log) ==> forall|j: int|
            0 <= j < recs.len() ==> { (#[trigger] log.frames@[j]).time@ == cell_of(recs[j], column_of(hs, "TimeInSeconds"@)) && log.frames@[j].frame@ == cell_of(recs[j], column_of(hs, "MsBetweenPresents"@)) && log.frames@[j].present_api@ == cell_of(recs[j], column_of(hs, "MsInPresentAPI"@)) && log.frames@[j].present_latency@ == cell_of(recs[j], column_of(hs, "MsRenderPresentLatency"@)) && log.frames@[j].until_displayed@ == cell_of(recs[j], column_of(hs, "MsUntilDisplayed"@)) && log.frames@[j].render_queue@ == cell_of(recs[j], column_of(hs, "Render Queue Depth"@)) && log.frames@[j].pc_latency@ == cell_of(recs[j], column_of(hs, "MsPCLatency"@)) && log.frames@[j].cpu_util@ == cell_of(recs[j], column_of(hs, "CPUUtil(%)"@)) && log.frames@[j].cpu_clk@ == cell_of(recs[j], column_of(hs, "CPUClk(MHz)"@)) && log.frames@[j].cpu_temp@ == cell_of(recs[j], column_of(hs, "CPU Package Temp(C)"@)) && log.frames@[j].cpu_power@ == cell_of(recs[j], column_of(hs, "CPU Package Power(W)"@)) },
{
    if let Ok(log) = r {
        assert forall|j: int| 0 <= j < recs.len() implies { (#[trigger] log.frames@[j]).time@ == cell_of(recs[j], column_of(hs, "TimeInSeconds"@)) && log.frames@[j].frame@ == cell_of(recs[j], column_of(hs, "MsBetweenPresents"@)) && log.frames@[j].present_api@ == cell_of(recs[j], column_of(hs, "MsInPresentAPI"@)) && log.frames@[j].present_latency@ == cell_of(recs[j], column_of(hs, "MsRenderPresentLatency"@)) && log.frames@[j].until_displayed@ == cell_of(recs[j], column_of(hs, "MsUntilDisplayed"@)) && log.frames@[j].render_queue@ == cell_of(recs[j], column_of(hs, "Render Queue Depth"@)) && log.frames@[j].pc_latency@ == cell_of(recs[j], column_of(hs, "MsPCLatency"@)) && log.frames@[j].cpu_util@ == cell_of(recs[j], column_of(hs, "CPUUtil(%)"@)) && log.frames@[j].cpu_clk@ == cell_of(recs[j], column_of(hs, "CPUClk(MHz)"@)) && log.frames@[j].cpu_temp@ == cell_of(recs[j], column_of(hs, "CPU Package Temp(C)"@)) && log.frames@[j].cpu_power@ == cell_of(recs[j], column_of(hs, "CPU Package Power(W)"@)) } by {
            lemma_frame_cells_by_name(hs, recs[j], log.cols, log.frames@[j]);
        }
    }
}

} // verus!
