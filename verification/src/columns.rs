//! Resolution of a FrameView capture log's header into column positions, and
//! extraction of the trimmed cells of a record.
//!
//! Columns are found by name, wherever they stand in the header. When a name
//! occurs more than once the last occurrence is used; a name that does not
//! occur resolves to `usize::MAX`, whose cell is always empty.
//!
//! The lookup scans the header from its end. This gives what a map from header
//! name to position gives when it is filled in header order (a later duplicate
//! replaces an earlier one), and it is stated over plain sequences rather than
//! over a hash map keyed by strings. Per-core columns are found the same way:
//! where two differently written headers name the same core (`[ 3]` and `[3]`),
//! the later header is used, a choice that a walk over such a map would leave
//! to the map's internal order.
use vstd::prelude::*;

use crate::text::{
    chars_of, decimal, decimal_string, parse_unsigned, parse_unsigned_chars, trim, trim_bounds,
    trimmed,
};

verus! {

/// The character sequences of a row of strings.
pub open spec fn row_names(row: Seq<String>) -> Seq<Seq<char>> {
    row.map_values(|h: String| h@)
}

/// The index of the last entry of `hs` equal to `name`, or `-1` when there is none.
pub open spec fn last_index_of(hs: Seq<Seq<char>>, name: Seq<char>) -> int
    decreases hs.len(),
{
    if hs.len() == 0 {
        -1
    } else if hs.last() == name {
        hs.len() - 1
    } else {
        last_index_of(hs.drop_last(), name)
    }
}

/// Whether the header holds a column of that name.
pub open spec fn has_column(hs: Seq<Seq<char>>, name: Seq<char>) -> bool {
    last_index_of(hs, name) >= 0
}

/// The position of the column of that name (its last occurrence), or
/// `usize::MAX` when the header has none.
pub open spec fn column_of(hs: Seq<Seq<char>>, name: Seq<char>) -> usize {
    let i = last_index_of(hs, name);
    if i < 0 {
        usize::MAX
    } else {
        i as usize
    }
}

/// The trimmed text of cell `idx` of a record, empty where the record has no such cell.
pub open spec fn cell_of(rec: Seq<Seq<char>>, idx: usize) -> Seq<char> {
    if idx < rec.len() {
        trimmed(rec[idx as int])
    } else {
        Seq::empty()
    }
}

/// What `last_index_of` finds: the last matching position, or no match at all.
pub proof fn lemma_last_index_of(hs: Seq<Seq<char>>, name: Seq<char>)
    ensures
        -1 <= last_index_of(hs, name) < hs.len(),
        last_index_of(hs, name) >= 0 ==> hs[last_index_of(hs, name)] == name,
        forall|k: int|
            last_index_of(hs, name) < k < hs.len() ==> #[trigger] hs[k] != name,
    decreases hs.len(),
{
    if hs.len() > 0 && hs.last() != name {
        lemma_last_index_of(hs.drop_last(), name);
        assert forall|k: int| last_index_of(hs, name) < k < hs.len() implies #[trigger] hs[k]
            != name by {
            if k < hs.len() - 1 {
                assert(hs[k] == hs.drop_last()[k]);
            }
        }
    }
}

/// `last_index_of` over a prefix, when nothing after the prefix matches.
proof fn lemma_last_index_of_prefix(hs: Seq<Seq<char>>, name: Seq<char>, j: int)
    requires
        0 <= j <= hs.len(),
        forall|k: int| j <= k < hs.len() ==> #[trigger] hs[k] != name,
    ensures
        last_index_of(hs, name) == last_index_of(hs.take(j), name),
    decreases hs.len() - j,
{
    if j < hs.len() {
        assert(hs.drop_last().take(j) =~= hs.take(j));
        lemma_last_index_of_prefix(hs.drop_last(), name, j);
    } else {
        assert(hs.take(j) =~= hs);
    }
}

/// The position of the column `name` in the header: its last occurrence, or
/// `usize::MAX` when it does not occur.
pub fn column_index(headers: &Vec<String>, name: &str) -> (r: usize)
    ensures
        r == column_of(row_names(headers@), name@),
{
    let ghost hs = row_names(headers@);
    let key = String::from_str(name);
    let mut i = headers.len();
    while i > 0
        invariant
            i <= headers.len(),
            hs == row_names(headers@),
            key@ == name@,
            forall|k: int| i <= k < headers.len() ==> #[trigger] hs[k] != name@,
        decreases i,
    {
        if headers[i - 1] == key {
            proof {
                lemma_last_index_of_prefix(hs, name@, i as int);
                assert(hs.take(i as int).last() == name@);
            }
            return i - 1;
        }
        i = i - 1;
    }
    proof {
        lemma_last_index_of_prefix(hs, name@, 0);
    }
    usize::MAX
}

/// The trimmed text of cell `idx` of a record, or an empty string where the
/// record has no such cell.
pub fn cell(rec: &Vec<String>, idx: usize) -> (r: String)
    ensures
        r@ == cell_of(row_names(rec@), idx),
{
    if idx < rec.len() {
        trim(rec[idx].as_str())
    } else {
        String::new()
    }
}


/// How many GPU indices the header is scanned for.
pub const GPU_SCAN: usize = 16;

/// The positions of one GPU's four columns.
#[derive(Clone, Copy, PartialEq, Eq, Debug, Structural)]
pub struct GpuColumns {
    pub util: usize,
    pub clk: usize,
    pub mem_clk: usize,
    pub temp: usize,
}

/// The name of a column of GPU `i`: `GPU`, the index in decimal, then the suffix.
pub open spec fn gpu_column_name(i: nat, suffix: Seq<char>) -> Seq<char> {
    "GPU"@ + decimal(i) + suffix
}

/// The positions of the columns `GPU{i}Util(%)`, `GPU{i}Clk(MHz)`,
/// `GPU{i}MemClk(MHz)` and `GPU{i}Temp(C)`.
pub open spec fn gpu_group(hs: Seq<Seq<char>>, i: nat) -> GpuColumns {
    GpuColumns {
        util: column_of(hs, gpu_column_name(i, "Util(%)"@)),
        clk: column_of(hs, gpu_column_name(i, "Clk(MHz)"@)),
        mem_clk: column_of(hs, gpu_column_name(i, "MemClk(MHz)"@)),
        temp: column_of(hs, gpu_column_name(i, "Temp(C)"@)),
    }
}

/// Whether at least one of a GPU's columns is present.
pub open spec fn gpu_present(g: GpuColumns) -> bool {
    !(g.util == usize::MAX && g.clk == usize::MAX && g.mem_clk == usize::MAX && g.temp
        == usize::MAX)
}

/// The first GPU index at or after `from` (below `GPU_SCAN`) with a column in
/// the header, or `GPU_SCAN` when there is none.
pub open spec fn first_gpu(hs: Seq<Seq<char>>, from: nat) -> nat
    decreases GPU_SCAN - from,
{
    if from >= GPU_SCAN || gpu_present(gpu_group(hs, from)) {
        from
    } else {
        first_gpu(hs, from + 1)
    }
}

/// The first GPU index at or after `from` without any column, or `GPU_SCAN`.
pub open spec fn gpu_run_end(hs: Seq<Seq<char>>, from: nat) -> nat
    decreases GPU_SCAN - from,
{
    if from >= GPU_SCAN || !gpu_present(gpu_group(hs, from)) {
        from
    } else {
        gpu_run_end(hs, from + 1)
    }
}

/// The GPUs of a header: the contiguous run of GPU indices that starts at the
/// first one present, each with its column positions.
pub open spec fn gpu_columns_of(hs: Seq<Seq<char>>) -> Seq<GpuColumns> {
    let a = first_gpu(hs, 0);
    let b = gpu_run_end(hs, a);
    Seq::new((b - a) as nat, |k: int| gpu_group(hs, (a + k) as nat))
}

/// The name of a column of GPU `i`.
fn gpu_name(i: usize, suffix: &str) -> (r: String)
    ensures
        r@ == gpu_column_name(i as nat, suffix@),
{
    let mut s = String::from_str("GPU");
    s.append(decimal_string(i).as_str());
    s.append(suffix);
    s
}

/// The column positions of GPU `i`.
fn gpu_group_at(headers: &Vec<String>, i: usize) -> (g: GpuColumns)
    ensures
        g == gpu_group(row_names(headers@), i as nat),
{
    GpuColumns {
        util: column_index(headers, gpu_name(i, "Util(%)").as_str()),
        clk: column_index(headers, gpu_name(i, "Clk(MHz)").as_str()),
        mem_clk: column_index(headers, gpu_name(i, "MemClk(MHz)").as_str()),
        temp: column_index(headers, gpu_name(i, "Temp(C)").as_str()),
    }
}

/// The GPUs that the header has columns for, found by scanning GPU indices
/// `0..GPU_SCAN`: the run of consecutive indices that starts at the first one
/// with any column and ends before the next one with none.
pub fn gpu_columns(headers: &Vec<String>) -> (r: Vec<GpuColumns>)
    ensures
        r@ == gpu_columns_of(row_names(headers@)),
{
    let ghost hs = row_names(headers@);
    let mut gpus: Vec<GpuColumns> = Vec::new();
    let mut i: usize = 0;
    while i < GPU_SCAN
        invariant
            i <= GPU_SCAN,
            hs == row_names(headers@),
            gpus.len() == 0 ==> first_gpu(hs, 0) == first_gpu(hs, i as nat),
            gpus.len() > 0 ==> {
                let a = first_gpu(hs, 0);
                &&& a + gpus.len() == i
                &&& gpu_run_end(hs, a) == gpu_run_end(hs, i as nat)
                &&& forall|k: int|
                    0 <= k < gpus.len() ==> #[trigger] gpus@[k] == gpu_group(hs, (a + k) as nat)
            },
        decreases GPU_SCAN - i,
    {
        let g = gpu_group_at(headers, i);
        if g.util == usize::MAX && g.clk == usize::MAX && g.mem_clk == usize::MAX && g.temp
            == usize::MAX {
            if gpus.len() > 0 {
                proof {
                    let a = first_gpu(hs, 0);
                    assert(gpu_run_end(hs, i as nat) == i);
                    assert(gpus@ =~= gpu_columns_of(hs));
                }
                return gpus;
            }
        } else {
            proof {
                if gpus.len() == 0 {
                    assert(first_gpu(hs, i as nat) == i);
                }
            }
            gpus.push(g);
        }
        i = i + 1;
    }
    proof {
        let a = first_gpu(hs, 0);
        if gpus.len() == 0 {
            assert(first_gpu(hs, GPU_SCAN as nat) == GPU_SCAN);
            assert(gpu_run_end(hs, GPU_SCAN as nat) == GPU_SCAN);
        } else {
            assert(gpu_run_end(hs, GPU_SCAN as nat) == GPU_SCAN);
        }
        assert(gpus@ =~= gpu_columns_of(hs));
    }
    gpus
}


/// The number of CPU cores whose utilization columns are tracked.
pub const MAX_CORES: usize = 64;

/// The position of the first `c` in `s`, or `-1`.
pub open spec fn index_of_char(s: Seq<char>, c: char) -> int
    decreases s.len(),
{
    if s.len() == 0 {
        -1
    } else if s[0] == c {
        0
    } else {
        let r = index_of_char(s.drop_first(), c);
        if r < 0 {
            -1
        } else {
            r + 1
        }
    }
}

/// The core that a per-core utilization column is for. Its name is
/// `CPUCoreUtil%[`, then, up to the first `]`, the core number (surrounding
/// whitespace allowed, so both `[ 3]` and `[3]` name core 3); numbers from
/// `MAX_CORES` on are ignored.
pub open spec fn core_of_name(name: Seq<char>) -> Option<nat> {
    let p = "CPUCoreUtil%["@;
    if p.len() <= name.len() && name.take(p.len() as int) == p {
        let rest = name.skip(p.len() as int);
        let e = index_of_char(rest, ']');
        if e >= 0 {
            match parse_unsigned(trimmed(rest.take(e)), usize::MAX as nat) {
                Some(c) => if c < MAX_CORES {
                    Some(c)
                } else {
                    None
                },
                None => None,
            }
        } else {
            None
        }
    } else {
        None
    }
}

/// The position of the last header that names core `c`, or `-1`.
pub open spec fn last_core_header(hs: Seq<Seq<char>>, c: nat) -> int
    decreases hs.len(),
{
    if hs.len() == 0 {
        -1
    } else if core_of_name(hs.last()) == Some(c) {
        hs.len() - 1
    } else {
        last_core_header(hs.drop_last(), c)
    }
}

/// The column of core `c`'s utilization, or `usize::MAX` when the header has none.
pub open spec fn core_column(hs: Seq<Seq<char>>, c: nat) -> usize {
    let i = last_core_header(hs, c);
    if i < 0 {
        usize::MAX
    } else {
        i as usize
    }
}

/// The utilization column of every tracked core.
pub open spec fn core_columns_of(hs: Seq<Seq<char>>) -> Seq<usize> {
    Seq::new(MAX_CORES as nat, |c: int| core_column(hs, c as nat))
}

proof fn lemma_index_of_char(s: Seq<char>, c: char, e: int)
    requires
        0 <= e <= s.len(),
        forall|k: int| 0 <= k < e ==> #[trigger] s[k] != c,
        e < s.len() ==> s[e] == c,
    ensures
        index_of_char(s, c) == (if e == s.len() {
            -1
        } else {
            e
        }),
    decreases e,
{
    if e > 0 {
        assert forall|k: int| 0 <= k < e - 1 implies #[trigger] s.drop_first()[k] != c by {
            assert(s.drop_first()[k] == s[k + 1]);
        }
        lemma_index_of_char(s.drop_first(), c, e - 1);
    }
}

/// The characters `v[a..b]`.
fn sub_chars(v: &Vec<char>, a: usize, b: usize) -> (r: Vec<char>)
    requires
        a <= b <= v.len(),
    ensures
        r@ == v@.subrange(a as int, b as int),
{
    let mut r: Vec<char> = Vec::new();
    let mut k = a;
    while k < b
        invariant
            a <= k <= b <= v.len(),
            r@ == v@.subrange(a as int, k as int),
        decreases b - k,
    {
        r.push(v[k]);
        k = k + 1;
        assert(r@ =~= v@.subrange(a as int, k as int));
    }
    r
}

/// The core that a header names, if it is a per-core utilization column.
pub fn core_of(name: &str) -> (r: Option<usize>)
    ensures
        r matches Some(c) ==> core_of_name(name@) == Some(c as nat),
        r is None ==> core_of_name(name@) is None,
{
    let cs = chars_of(name);
    let p = chars_of("CPUCoreUtil%[");
    let plen = p.len();
    let n = cs.len();
    if plen > n {
        return None;
    }
    let mut k: usize = 0;
    while k < plen
        invariant
            k <= plen <= n,
            plen == p.len(),
            n == cs.len(),
            p@ == "CPUCoreUtil%["@,
            cs@ == name@,
            forall|j: int| 0 <= j < k ==> #[trigger] cs@[j] == p@[j],
        decreases plen - k,
    {
        if cs[k] != p[k] {
            assert(cs@.take(plen as int)[k as int] != p@[k as int]);
            assert(cs@.take(plen as int) != p@);
            return None;
        }
        k = k + 1;
    }
    assert(cs@.take(plen as int) =~= p@);
    let ghost rest = cs@.skip(plen as int);
    let mut j = plen;
    while j < n && cs[j] != ']'
        invariant
            plen <= j <= n == cs.len(),
            rest == cs@.skip(plen as int),
            forall|k: int| plen <= k < j ==> #[trigger] cs@[k] != ']',
        decreases n - j,
    {
        j = j + 1;
    }
    proof {
        assert forall|k: int| 0 <= k < j - plen implies #[trigger] rest[k] != ']' by {
            assert(rest[k] == cs@[k + plen]);
        }
        if j < n {
            assert(rest[j - plen] == cs@[j as int]);
        }
        lemma_index_of_char(rest, ']', j - plen);
    }
    if j == n {
        return None;
    }
    let inner = sub_chars(&cs, plen, j);
    assert(inner@ =~= rest.take(j - plen));
    let (a, b) = trim_bounds(&inner);
    let digits = sub_chars(&inner, a, b);
    match parse_unsigned_chars(&digits, usize::MAX as u64) {
        Some(v) => {
            if v < MAX_CORES as u64 {
                Some(v as usize)
            } else {
                None
            }
        },
        None => None,
    }
}

/// The utilization column of every tracked core (`MAX_CORES` entries,
/// `usize::MAX` for cores the header has no column for). Where several headers
/// name the same core, the last of them is used.
pub fn core_columns(headers: &Vec<String>) -> (r: Vec<usize>)
    ensures
        r@ == core_columns_of(row_names(headers@)),
{
    let ghost hs = row_names(headers@);
    let mut cores: Vec<usize> = Vec::new();
    let mut c: usize = 0;
    while c < MAX_CORES
        invariant
            c <= MAX_CORES,
            cores.len() == c,
            forall|k: int| 0 <= k < c ==> #[trigger] cores@[k] == usize::MAX,
        decreases MAX_CORES - c,
    {
        cores.push(usize::MAX);
        c = c + 1;
    }
    let mut j: usize = 0;
    while j < headers.len()
        invariant
            j <= headers.len(),
            hs == row_names(headers@),
            cores.len() == MAX_CORES,
            forall|k: int|
                0 <= k < MAX_CORES ==> #[trigger] cores@[k] == core_column(
                    hs.take(j as int),
                    k as nat,
                ),
        decreases headers.len() - j,
    {
        let found = core_of(headers[j].as_str());
        proof {
            assert(hs.take(j + 1).drop_last() =~= hs.take(j as int));
            assert(hs.take(j + 1).last() == headers@[j as int]@);
        }
        match found {
            Some(k) => {
                cores.set(k, j);
            },
            None => {},
        }
        j = j + 1;
    }
    assert(hs.take(headers.len() as int) =~= hs);
    assert(cores@ =~= core_columns_of(hs));
    cores
}


/// Why a capture log cannot be loaded.
#[derive(Clone, PartialEq, Eq, Debug)]
pub enum LoadError {
    /// The text is not well-formed CSV; the CSV reader's own message.
    Csv(String),
    /// The file is a FrameView summary (one row per benchmark run): it lacks the
    /// per-frame columns but has a `Log Name` column.
    SummaryFile,
    /// The header lacks `TimeInSeconds` or `MsBetweenPresents`.
    NotFrameLog,
    /// The log has a header but no data rows.
    NoDataRows,
}

impl LoadError {
    /// The message shown for this error.
    pub fn message(&self) -> (s: String)
        ensures
            s@ == match self {
                LoadError::SummaryFile => "this is a FrameView summary file (one row per benchmark run), not a per-frame capture log. Open the file named in its `Log Name` column instead (FrameView_<app>_<timestamp>_Log.csv)"@,
                LoadError::NotFrameLog => "not a FrameView per-frame capture log: no `TimeInSeconds` / `MsBetweenPresents` column in the header"@,
                LoadError::NoDataRows => "no data rows parsed"@,
                LoadError::Csv(m) => m@,
            },
    {
        match self {
            LoadError::SummaryFile => String::from_str(
                "this is a FrameView summary file (one row per benchmark run), not a per-frame capture log. Open the file named in its `Log Name` column instead (FrameView_<app>_<timestamp>_Log.csv)",
            ),
            LoadError::NotFrameLog => String::from_str(
                "not a FrameView per-frame capture log: no `TimeInSeconds` / `MsBetweenPresents` column in the header",
            ),
            LoadError::NoDataRows => String::from_str("no data rows parsed"),
            LoadError::Csv(m) => m.clone(),
        }
    }
}

/// The positions of every column that the analyzer reads.
pub struct Columns {
    pub app: usize,
    pub gpu: usize,
    pub cpu: usize,
    pub resolution: usize,
    pub runtime: usize,
    pub time: usize,
    pub frame: usize,
    pub present_api: usize,
    pub present_latency: usize,
    pub until_displayed: usize,
    pub render_queue: usize,
    pub pc_latency: usize,
    pub gpus: Vec<GpuColumns>,
    pub cpu_util: usize,
    pub cpu_clk: usize,
    pub cpu_temp: usize,
    pub cpu_power: usize,
    pub cores: Vec<usize>,
}

/// Whether a header lacks one of the two per-frame columns.
pub open spec fn lacks_frame_columns(hs: Seq<Seq<char>>) -> bool {
    !has_column(hs, "TimeInSeconds"@) || !has_column(hs, "MsBetweenPresents"@)
}

/// `cols` holds the position of every column of the header `hs`.
pub open spec fn columns_match(cols: Columns, hs: Seq<Seq<char>>) -> bool {
    &&& cols.app == column_of(hs, "Application"@)
    &&& cols.gpu == column_of(hs, "GPU"@)
    &&& cols.cpu == column_of(hs, "CPU"@)
    &&& cols.resolution == column_of(hs, "Resolution"@)
    &&& cols.runtime == column_of(hs, "Runtime"@)
    &&& cols.time == column_of(hs, "TimeInSeconds"@)
    &&& cols.frame == column_of(hs, "MsBetweenPresents"@)
    &&& cols.present_api == column_of(hs, "MsInPresentAPI"@)
    &&& cols.present_latency == column_of(hs, "MsRenderPresentLatency"@)
    &&& cols.until_displayed == column_of(hs, "MsUntilDisplayed"@)
    &&& cols.render_queue == column_of(hs, "Render Queue Depth"@)
    &&& cols.pc_latency == column_of(hs, "MsPCLatency"@)
    &&& cols.gpus@ == gpu_columns_of(hs)
    &&& cols.cpu_util == column_of(hs, "CPUUtil(%)"@)
    &&& cols.cpu_clk == column_of(hs, "CPUClk(MHz)"@)
    &&& cols.cpu_temp == column_of(hs, "CPU Package Temp(C)"@)
    &&& cols.cpu_power == column_of(hs, "CPU Package Power(W)"@)
    &&& cols.cores@ == core_columns_of(hs)
}

/// Resolves a capture log's header. It is refused when it lacks
/// `TimeInSeconds` or `MsBetweenPresents`: as a summary file when it has a
/// `Log Name` column, as not a per-frame log otherwise.
pub fn resolve_columns(headers: &Vec<String>) -> (r: Result<Columns, LoadError>)
    ensures
        r matches Ok(cols) ==> columns_match(cols, row_names(headers@)),
        r is Ok <==> !lacks_frame_columns(row_names(headers@)),
        r == Err::<Columns, LoadError>(LoadError::SummaryFile) <==> lacks_frame_columns(
            row_names(headers@),
        ) && has_column(row_names(headers@), "Log Name"@),
        r == Err::<Columns, LoadError>(LoadError::NotFrameLog) <==> lacks_frame_columns(
            row_names(headers@),
        ) && !has_column(row_names(headers@), "Log Name"@),
{
    let ghost hs = row_names(headers@);
    let app = column_index(headers, "Application");
    let gpu = column_index(headers, "GPU");
    let cpu = column_index(headers, "CPU");
    let resolution = column_index(headers, "Resolution");
    let runtime = column_index(headers, "Runtime");
    let time = column_index(headers, "TimeInSeconds");
    let frame = column_index(headers, "MsBetweenPresents");
    proof {
        lemma_last_index_of(hs, "TimeInSeconds"@);
        lemma_last_index_of(hs, "MsBetweenPresents"@);
        lemma_last_index_of(hs, "Log Name"@);
        assert(hs.len() == headers.len());
    }
    if time == usize::MAX || frame == usize::MAX {
        if column_index(headers, "Log Name") != usize::MAX {
            return Err(LoadError::SummaryFile);
        }
        return Err(LoadError::NotFrameLog);
    }
    let cols = Columns {
        app,
        gpu,
        cpu,
        resolution,
        runtime,
        time,
        frame,
        present_api: column_index(headers, "MsInPresentAPI"),
        present_latency: column_index(headers, "MsRenderPresentLatency"),
        until_displayed: column_index(headers, "MsUntilDisplayed"),
        render_queue: column_index(headers, "Render Queue Depth"),
        pc_latency: column_index(headers, "MsPCLatency"),
        gpus: gpu_columns(headers),
        cpu_util: column_index(headers, "CPUUtil(%)"),
        cpu_clk: column_index(headers, "CPUClk(MHz)"),
        cpu_temp: column_index(headers, "CPU Package Temp(C)"),
        cpu_power: column_index(headers, "CPU Package Power(W)"),
        cores: core_columns(headers),
    };
    Ok(cols)
}


/// The descriptive fields of a capture, taken from its first record.
pub struct SessionInfo {
    pub app: String,
    pub gpu: String,
    pub cpu: String,
    pub resolution: String,
    pub runtime: String,
}

/// The descriptive fields of a capture, read from a record.
pub fn session_info(rec: &Vec<String>, cols: &Columns) -> (r: SessionInfo)
    ensures
        r.app@ == cell_of(row_names(rec@), cols.app),
        r.gpu@ == cell_of(row_names(rec@), cols.gpu),
        r.cpu@ == cell_of(row_names(rec@), cols.cpu),
        r.resolution@ == cell_of(row_names(rec@), cols.resolution),
        r.runtime@ == cell_of(row_names(rec@), cols.runtime),
{
    SessionInfo {
        app: cell(rec, cols.app),
        gpu: cell(rec, cols.gpu),
        cpu: cell(rec, cols.cpu),
        resolution: cell(rec, cols.resolution),
        runtime: cell(rec, cols.runtime),
    }
}

/// The trimmed cells of one GPU's columns in a record.
pub struct RawGpu {
    pub util: String,
    pub clk: String,
    pub mem_clk: String,
    pub temp: String,
}

/// The trimmed cells of every column that a frame sample is made of, before
/// they are read as numbers.
pub struct RawFrame {
    pub time: String,
    pub frame: String,
    pub present_api: String,
    pub present_latency: String,
    pub until_displayed: String,
    pub render_queue: String,
    pub pc_latency: String,
    pub gpus: Vec<RawGpu>,
    pub cpu_util: String,
    pub cpu_clk: String,
    pub cpu_temp: String,
    pub cpu_power: String,
    pub cores: Vec<String>,
}

/// `f` holds, for every column of `cols`, the cell of that column in `rec`.
pub open spec fn raw_frame_of(f: RawFrame, rec: Seq<Seq<char>>, cols: Columns) -> bool {
    &&& f.time@ == cell_of(rec, cols.time)
    &&& f.frame@ == cell_of(rec, cols.frame)
    &&& f.present_api@ == cell_of(rec, cols.present_api)
    &&& f.present_latency@ == cell_of(rec, cols.present_latency)
    &&& f.until_displayed@ == cell_of(rec, cols.until_displayed)
    &&& f.render_queue@ == cell_of(rec, cols.render_queue)
    &&& f.pc_latency@ == cell_of(rec, cols.pc_latency)
    &&& f.gpus.len() == cols.gpus.len()
    &&& forall|k: int|
        0 <= k < f.gpus.len() ==> {
            &&& (#[trigger] f.gpus@[k]).util@ == cell_of(rec, cols.gpus@[k].util)
            &&& f.gpus@[k].clk@ == cell_of(rec, cols.gpus@[k].clk)
            &&& f.gpus@[k].mem_clk@ == cell_of(rec, cols.gpus@[k].mem_clk)
            &&& f.gpus@[k].temp@ == cell_of(rec, cols.gpus@[k].temp)
        }
    &&& f.cpu_util@ == cell_of(rec, cols.cpu_util)
    &&& f.cpu_clk@ == cell_of(rec, cols.cpu_clk)
    &&& f.cpu_temp@ == cell_of(rec, cols.cpu_temp)
    &&& f.cpu_power@ == cell_of(rec, cols.cpu_power)
    &&& f.cores.len() == cols.cores.len()
    &&& forall|c: int|
        0 <= c < f.cores.len() ==> (#[trigger] f.cores@[c])@ == cell_of(rec, cols.cores@[c])
}

/// The cells of a record that make up one frame sample.
pub fn raw_frame(rec: &Vec<String>, cols: &Columns) -> (r: RawFrame)
    ensures
        raw_frame_of(r, row_names(rec@), *cols),
{
    let ghost rs = row_names(rec@);
    let mut gpus: Vec<RawGpu> = Vec::new();
    let mut k: usize = 0;
    while k < cols.gpus.len()
        invariant
            k <= cols.gpus.len(),
            gpus.len() == k,
            rs == row_names(rec@),
            forall|j: int|
                0 <= j < k ==> {
                    &&& (#[trigger] gpus@[j]).util@ == cell_of(rs, cols.gpus@[j].util)
                    &&& gpus@[j].clk@ == cell_of(rs, cols.gpus@[j].clk)
                    &&& gpus@[j].mem_clk@ == cell_of(rs, cols.gpus@[j].mem_clk)
                    &&& gpus@[j].temp@ == cell_of(rs, cols.gpus@[j].temp)
                },
        decreases cols.gpus.len() - k,
    {
        let g = cols.gpus[k];
        gpus.push(
            RawGpu {
                util: cell(rec, g.util),
                clk: cell(rec, g.clk),
                mem_clk: cell(rec, g.mem_clk),
                temp: cell(rec, g.temp),
            },
        );
        k = k + 1;
    }
    let mut cores: Vec<String> = Vec::new();
    let mut c: usize = 0;
    while c < cols.cores.len()
        invariant
            c <= cols.cores.len(),
            cores.len() == c,
            rs == row_names(rec@),
            forall|j: int| 0 <= j < c ==> (#[trigger] cores@[j])@ == cell_of(rs, cols.cores@[j]),
        decreases cols.cores.len() - c,
    {
        cores.push(cell(rec, cols.cores[c]));
        c = c + 1;
    }
    RawFrame {
        time: cell(rec, cols.time),
        frame: cell(rec, cols.frame),
        present_api: cell(rec, cols.present_api),
        present_latency: cell(rec, cols.present_latency),
        until_displayed: cell(rec, cols.until_displayed),
        render_queue: cell(rec, cols.render_queue),
        pc_latency: cell(rec, cols.pc_latency),
        gpus,
        cpu_util: cell(rec, cols.cpu_util),
        cpu_clk: cell(rec, cols.cpu_clk),
        cpu_temp: cell(rec, cols.cpu_temp),
        cpu_power: cell(rec, cols.cpu_power),
        cores,
    }
}

/// The sequence `s` reordered by `perm`: entry `i` is `s[perm[i]]`.
pub open spec fn reorder<A>(s: Seq<A>, perm: Seq<int>) -> Seq<A> {
    Seq::new(perm.len(), |i: int| s[perm[i]])
}

/// `perm` reorders `0..n`: every entry is a position below `n` and every
/// position below `n` occurs.
pub open spec fn is_reordering(perm: Seq<int>, n: nat) -> bool {
    &&& perm.len() == n
    &&& forall|i: int| 0 <= i < n ==> 0 <= #[trigger] perm[i] < n
    &&& forall|j: int| 0 <= j < n ==> #[trigger] occurs_in(perm, j)
}

/// Whether `j` is one of the entries of `perm`.
pub open spec fn occurs_in(perm: Seq<int>, j: int) -> bool {
    exists|i: int| 0 <= i < perm.len() && #[trigger] perm[i] == j
}

/// Columns are matched by name, whatever their order: when the header names
/// no column twice, reordering the header and a record in the same way gives
/// the same cell for every column name.
pub proof fn lemma_lookup_ignores_column_order(
    hs: Seq<Seq<char>>,
    rec: Seq<Seq<char>>,
    perm: Seq<int>,
    name: Seq<char>,
)
    requires
        hs.no_duplicates(),
        rec.len() == hs.len(),
        hs.len() <= usize::MAX,
        is_reordering(perm, hs.len()),
    ensures
        cell_of(reorder(rec, perm), column_of(reorder(hs, perm), name)) == cell_of(
            rec,
            column_of(hs, name),
        ),
{
    let phs = reorder(hs, perm);
    lemma_last_index_of(hs, name);
    lemma_last_index_of(phs, name);
    let i = last_index_of(hs, name);
    let j = last_index_of(phs, name);
    if j >= 0 {
        assert(phs[j] == hs[perm[j]]);
        if i < 0 {
            lemma_last_index_of_found(hs, name, perm[j]);
        }
        assert(perm[j] == i);
    } else if i >= 0 {
        assert(occurs_in(perm, i));
        let k = choose|k: int| 0 <= k < hs.len() && #[trigger] perm[k] == i;
        assert(phs[k] == hs[i]);
    }
}

/// When `hs[k] == name`, `last_index_of` finds a match.
pub proof fn lemma_last_index_of_found(hs: Seq<Seq<char>>, name: Seq<char>, k: int)
    requires
        0 <= k < hs.len(),
        hs[k] == name,
    ensures
        last_index_of(hs, name) >= 0,
{
    lemma_last_index_of(hs, name);
}


/// Reordering a header keeps the set of names it holds.
pub proof fn lemma_has_column_reorder(hs: Seq<Seq<char>>, perm: Seq<int>, name: Seq<char>)
    requires
        is_reordering(perm, hs.len()),
    ensures
        has_column(reorder(hs, perm), name) == has_column(hs, name),
{
    let phs = reorder(hs, perm);
    lemma_last_index_of(hs, name);
    lemma_last_index_of(phs, name);
    let i = last_index_of(hs, name);
    let j = last_index_of(phs, name);
    if i >= 0 {
        assert(occurs_in(perm, i));
        let k = choose|k: int| 0 <= k < perm.len() && #[trigger] perm[k] == i;
        assert(phs[k] == hs[i]);
        lemma_last_index_of_found(phs, name, k);
    }
    if j >= 0 {
        assert(phs[j] == hs[perm[j]]);
        lemma_last_index_of_found(hs, name, perm[j]);
    }
}

/// A header position is never `usize::MAX`, so `column_of` is `usize::MAX`
/// exactly when the column is missing.
proof fn lemma_column_of_missing(hs: Seq<Seq<char>>, name: Seq<char>)
    requires
        hs.len() <= usize::MAX,
    ensures
        (column_of(hs, name) == usize::MAX) == !has_column(hs, name),
{
    lemma_last_index_of(hs, name);
}

/// What `last_core_header` finds: the last header naming core `c`, or none.
proof fn lemma_last_core_header(hs: Seq<Seq<char>>, c: nat)
    ensures
        -1 <= last_core_header(hs, c) < hs.len(),
        last_core_header(hs, c) >= 0 ==> core_of_name(hs[last_core_header(hs, c)]) == Some(c),
        last_core_header(hs, c) < 0 ==> forall|k: int|
            0 <= k < hs.len() ==> core_of_name(#[trigger] hs[k]) != Some(c),
    decreases hs.len(),
{
    if hs.len() > 0 && core_of_name(hs.last()) != Some(c) {
        lemma_last_core_header(hs.drop_last(), c);
        if last_core_header(hs, c) < 0 {
            assert forall|k: int| 0 <= k < hs.len() implies core_of_name(#[trigger] hs[k]) != Some(
                c,
            ) by {
                if k < hs.len() - 1 {
                    assert(hs[k] == hs.drop_last()[k]);
                }
            }
        }
    }
}

/// No two headers name the same core.
pub open spec fn distinct_cores(hs: Seq<Seq<char>>) -> bool {
    forall|i: int, j: int|
        #![trigger core_of_name(hs[i]), core_of_name(hs[j])]
        0 <= i < hs.len() && 0 <= j < hs.len() && i != j && core_of_name(hs[i]) is Some
            ==> core_of_name(hs[i]) != core_of_name(hs[j])
}

/// Per-core columns are matched by name, whatever their order: when no two
/// headers name the same core, reordering the header and a record in the same
/// way gives the same cell for every core.
pub proof fn lemma_core_lookup_ignores_column_order(
    hs: Seq<Seq<char>>,
    rec: Seq<Seq<char>>,
    perm: Seq<int>,
    c: nat,
)
    requires
        distinct_cores(hs),
        rec.len() == hs.len(),
        hs.len() <= usize::MAX,
        is_reordering(perm, hs.len()),
    ensures
        cell_of(reorder(rec, perm), core_column(reorder(hs, perm), c)) == cell_of(
            rec,
            core_column(hs, c),
        ),
{
    let phs = reorder(hs, perm);
    lemma_last_core_header(hs, c);
    lemma_last_core_header(phs, c);
    let i = last_core_header(hs, c);
    let j = last_core_header(phs, c);
    if j >= 0 {
        assert(phs[j] == hs[perm[j]]);
        if i < 0 {
            assert(core_of_name(hs[perm[j]]) != Some(c));
        }
        assert(core_of_name(hs[i]) == core_of_name(hs[perm[j]]));
        assert(perm[j] == i);
    } else if i >= 0 {
        assert(occurs_in(perm, i));
        let k = choose|k: int| 0 <= k < hs.len() && #[trigger] perm[k] == i;
        assert(phs[k] == hs[i]);
        assert(core_of_name(phs[k]) != Some(c));
    }
}

/// Reordering a header keeps which GPU indices have columns.
proof fn lemma_gpu_present_reorder(hs: Seq<Seq<char>>, perm: Seq<int>, i: nat)
    requires
        is_reordering(perm, hs.len()),
        hs.len() <= usize::MAX,
    ensures
        gpu_present(gpu_group(reorder(hs, perm), i)) == gpu_present(gpu_group(hs, i)),
{
    let phs = reorder(hs, perm);
    let names = seq![
        gpu_column_name(i, "Util(%)"@),
        gpu_column_name(i, "Clk(MHz)"@),
        gpu_column_name(i, "MemClk(MHz)"@),
        gpu_column_name(i, "Temp(C)"@),
    ];
    assert forall|k: int| 0 <= k < 4 implies (column_of(phs, #[trigger] names[k]) == usize::MAX)
        == (column_of(hs, names[k]) == usize::MAX) by {
        lemma_has_column_reorder(hs, perm, names[k]);
        lemma_column_of_missing(hs, names[k]);
        lemma_column_of_missing(phs, names[k]);
    }
    assert(names[0] == gpu_column_name(i, "Util(%)"@));
    assert(names[1] == gpu_column_name(i, "Clk(MHz)"@));
    assert(names[2] == gpu_column_name(i, "MemClk(MHz)"@));
    assert(names[3] == gpu_column_name(i, "Temp(C)"@));
}

/// Two headers with the same GPU indices present find the same run of GPUs.
proof fn lemma_gpu_run_same(h1: Seq<Seq<char>>, h2: Seq<Seq<char>>, from: nat)
    requires
        forall|i: nat| #[trigger] gpu_present(gpu_group(h1, i)) == gpu_present(gpu_group(h2, i)),
    ensures
        first_gpu(h1, from) == first_gpu(h2, from),
        gpu_run_end(h1, from) == gpu_run_end(h2, from),
    decreases GPU_SCAN - from,
{
    if from < GPU_SCAN {
        assert(gpu_present(gpu_group(h1, from)) == gpu_present(gpu_group(h2, from)));
        lemma_gpu_run_same(h1, h2, from + 1);
    }
}

/// Two frames hold the same text in every cell.
pub open spec fn same_frame_cells(a: RawFrame, b: RawFrame) -> bool {
    &&& a.time@ == b.time@
    &&& a.frame@ == b.frame@
    &&& a.present_api@ == b.present_api@
    &&& a.present_latency@ == b.present_latency@
    &&& a.until_displayed@ == b.until_displayed@
    &&& a.render_queue@ == b.render_queue@
    &&& a.pc_latency@ == b.pc_latency@
    &&& a.cpu_util@ == b.cpu_util@
    &&& a.cpu_clk@ == b.cpu_clk@
    &&& a.cpu_temp@ == b.cpu_temp@
    &&& a.cpu_power@ == b.cpu_power@
    &&& a.gpus.len() == b.gpus.len()
    &&& forall|k: int|
        0 <= k < a.gpus.len() ==> {
            &&& (#[trigger] a.gpus@[k]).util@ == b.gpus@[k].util@
            &&& a.gpus@[k].clk@ == b.gpus@[k].clk@
            &&& a.gpus@[k].mem_clk@ == b.gpus@[k].mem_clk@
            &&& a.gpus@[k].temp@ == b.gpus@[k].temp@
        }
    &&& a.cores.len() == b.cores.len()
    &&& forall|c: int| 0 <= c < a.cores.len() ==> (#[trigger] a.cores@[c])@ == b.cores@[c]@
}

/// A whole frame sample is read by column name, whatever the column order:
/// when the header names no column twice and no core twice, the frame read
/// from a record under its header, and the frame read from the record and
/// header reordered the same way, hold the same text in every cell.
pub proof fn lemma_frame_ignores_column_order(
    hs: Seq<Seq<char>>,
    rec: Seq<Seq<char>>,
    perm: Seq<int>,
    cols_a: Columns,
    cols_b: Columns,
    fa: RawFrame,
    fb: RawFrame,
)
    requires
        hs.no_duplicates(),
        distinct_cores(hs),
        rec.len() == hs.len(),
        hs.len() <= usize::MAX,
        is_reordering(perm, hs.len()),
        columns_match(cols_a, hs),
        columns_match(cols_b, reorder(hs, perm)),
        raw_frame_of(fa, rec, cols_a),
        raw_frame_of(fb, reorder(rec, perm), cols_b),
    ensures
        same_frame_cells(fa, fb),
{
    let phs = reorder(hs, perm);
    lemma_lookup_ignores_column_order(hs, rec, perm, "TimeInSeconds"@);
    lemma_lookup_ignores_column_order(hs, rec, perm, "MsBetweenPresents"@);
    lemma_lookup_ignores_column_order(hs, rec, perm, "MsInPresentAPI"@);
    lemma_lookup_ignores_column_order(hs, rec, perm, "MsRenderPresentLatency"@);
    lemma_lookup_ignores_column_order(hs, rec, perm, "MsUntilDisplayed"@);
    lemma_lookup_ignores_column_order(hs, rec, perm, "Render Queue Depth"@);
    lemma_lookup_ignores_column_order(hs, rec, perm, "MsPCLatency"@);
    lemma_lookup_ignores_column_order(hs, rec, perm, "CPUUtil(%)"@);
    lemma_lookup_ignores_column_order(hs, rec, perm, "CPUClk(MHz)"@);
    lemma_lookup_ignores_column_order(hs, rec, perm, "CPU Package Temp(C)"@);
    lemma_lookup_ignores_column_order(hs, rec, perm, "CPU Package Power(W)"@);
    assert forall|i: nat| #[trigger] gpu_present(gpu_group(hs, i)) == gpu_present(
        gpu_group(phs, i),
    ) by {
        lemma_gpu_present_reorder(hs, perm, i);
    }
    lemma_gpu_run_same(hs, phs, 0);
    let a = first_gpu(hs, 0);
    lemma_gpu_run_same(hs, phs, a);
    assert(fb.gpus.len() == fa.gpus.len());
    assert forall|k: int| 0 <= k < fa.gpus.len() implies {
        &&& (#[trigger] fa.gpus@[k]).util@ == fb.gpus@[k].util@
        &&& fa.gpus@[k].clk@ == fb.gpus@[k].clk@
        &&& fa.gpus@[k].mem_clk@ == fb.gpus@[k].mem_clk@
        &&& fa.gpus@[k].temp@ == fb.gpus@[k].temp@
    } by {
        let g = (a + k) as nat;
        lemma_lookup_ignores_column_order(hs, rec, perm, gpu_column_name(g, "Util(%)"@));
        lemma_lookup_ignores_column_order(hs, rec, perm, gpu_column_name(g, "Clk(MHz)"@));
        lemma_lookup_ignores_column_order(hs, rec, perm, gpu_column_name(g, "MemClk(MHz)"@));
        lemma_lookup_ignores_column_order(hs, rec, perm, gpu_column_name(g, "Temp(C)"@));
        assert(cols_a.gpus@[k] == gpu_group(hs, g));
        assert(cols_b.gpus@[k] == gpu_group(phs, g));
    }
    assert forall|c: int| 0 <= c < fa.cores.len() implies (#[trigger] fa.cores@[c])@
        == fb.cores@[c]@ by {
        lemma_core_lookup_ignores_column_order(hs, rec, perm, c as nat);
        assert(cols_a.cores@[c] == core_column(hs, c as nat));
        assert(cols_b.cores@[c] == core_column(phs, c as nat));
    }
}


/// `pos` is the position of the last header named `name`, or `usize::MAX`
/// when no header has that name.
pub open spec fn is_position_of(hs: Seq<Seq<char>>, pos: usize, name: Seq<char>) -> bool {
    ||| (pos < hs.len() && hs[pos as int] == name && forall|k: int|
        pos < k < hs.len() ==> #[trigger] hs[k] != name)
    ||| (pos == usize::MAX && forall|k: int| 0 <= k < hs.len() ==> #[trigger] hs[k] != name)
}

/// Every resolved column is the one whose header carries that column's own
/// FrameView name: the last header with exactly that name, or `usize::MAX`
/// when the header has none.
pub proof fn lemma_columns_by_name(hs: Seq<Seq<char>>, cols: Columns)
    requires
        hs.len() <= usize::MAX,
        columns_match(cols, hs),
    ensures
        is_position_of(hs, cols.app, "Application"@),
        is_position_of(hs, cols.gpu, "GPU"@),
        is_position_of(hs, cols.cpu, "CPU"@),
        is_position_of(hs, cols.resolution, "Resolution"@),
        is_position_of(hs, cols.runtime, "Runtime"@),
        is_position_of(hs, cols.time, "TimeInSeconds"@),
        is_position_of(hs, cols.frame, "MsBetweenPresents"@),
        is_position_of(hs, cols.present_api, "MsInPresentAPI"@),
        is_position_of(hs, cols.present_latency, "MsRenderPresentLatency"@),
        is_position_of(hs, cols.until_displayed, "MsUntilDisplayed"@),
        is_position_of(hs, cols.render_queue, "Render Queue Depth"@),
        is_position_of(hs, cols.pc_latency, "MsPCLatency"@),
        is_position_of(hs, cols.cpu_util, "CPUUtil(%)"@),
        is_position_of(hs, cols.cpu_clk, "CPUClk(MHz)"@),
        is_position_of(hs, cols.cpu_temp, "CPU Package Temp(C)"@),
        is_position_of(hs, cols.cpu_power, "CPU Package Power(W)"@),
{
    lemma_last_index_of(hs, "Application"@);
    lemma_last_index_of(hs, "GPU"@);
    lemma_last_index_of(hs, "CPU"@);
    lemma_last_index_of(hs, "Resolution"@);
    lemma_last_index_of(hs, "Runtime"@);
    lemma_last_index_of(hs, "TimeInSeconds"@);
    lemma_last_index_of(hs, "MsBetweenPresents"@);
    lemma_last_index_of(hs, "MsInPresentAPI"@);
    lemma_last_index_of(hs, "MsRenderPresentLatency"@);
    lemma_last_index_of(hs, "MsUntilDisplayed"@);
    lemma_last_index_of(hs, "Render Queue Depth"@);
    lemma_last_index_of(hs, "MsPCLatency"@);
    lemma_last_index_of(hs, "CPUUtil(%)"@);
    lemma_last_index_of(hs, "CPUClk(MHz)"@);
    lemma_last_index_of(hs, "CPU Package Temp(C)"@);
    lemma_last_index_of(hs, "CPU Package Power(W)"@);
}

/// Every cell of a frame read from a record is the trimmed cell under the
/// header that carries that field's FrameView name; each GPU's cells are those
/// under its `GPU{i}…` headers and each core's cell is that under its
/// per-core header.
pub proof fn lemma_frame_cells_by_name(
    hs: Seq<Seq<char>>,
    rec: Seq<Seq<char>>,
    cols: Columns,
    f: RawFrame,
)
    requires
        columns_match(cols, hs),
        raw_frame_of(f, rec, cols),
    ensures
        f.time@ == cell_of(rec, column_of(hs, "TimeInSeconds"@)),
        f.frame@ == cell_of(rec, column_of(hs, "MsBetweenPresents"@)),
        f.present_api@ == cell_of(rec, column_of(hs, "MsInPresentAPI"@)),
        f.present_latency@ == cell_of(rec, column_of(hs, "MsRenderPresentLatency"@)),
        f.until_displayed@ == cell_of(rec, column_of(hs, "MsUntilDisplayed"@)),
        f.render_queue@ == cell_of(rec, column_of(hs, "Render Queue Depth"@)),
        f.pc_latency@ == cell_of(rec, column_of(hs, "MsPCLatency"@)),
        f.cpu_util@ == cell_of(rec, column_of(hs, "CPUUtil(%)"@)),
        f.cpu_clk@ == cell_of(rec, column_of(hs, "CPUClk(MHz)"@)),
        f.cpu_temp@ == cell_of(rec, column_of(hs, "CPU Package Temp(C)"@)),
        f.cpu_power@ == cell_of(rec, column_of(hs, "CPU Package Power(W)"@)),
        f.gpus.len() == gpu_run_end(hs, first_gpu(hs, 0)) - first_gpu(hs, 0),
        forall|k: int|
            0 <= k < f.gpus.len() ==> {
                let g = (first_gpu(hs, 0) + k) as nat;
                &&& (#[trigger] f.gpus@[k]).util@ == cell_of(
                    rec,
                    column_of(hs, gpu_column_name(g, "Util(%)"@)),
                )
                &&& f.gpus@[k].clk@ == cell_of(rec, column_of(hs, gpu_column_name(g, "Clk(MHz)"@)))
                &&& f.gpus@[k].mem_clk@ == cell_of(
                    rec,
                    column_of(hs, gpu_column_name(g, "MemClk(MHz)"@)),
                )
                &&& f.gpus@[k].temp@ == cell_of(rec, column_of(hs, gpu_column_name(g, "Temp(C)"@)))
            },
        f.cores.len() == MAX_CORES,
        forall|c: int|
            0 <= c < MAX_CORES ==> (#[trigger] f.cores@[c])@ == cell_of(rec, core_column(hs, c as nat)),
{
    lemma_gpu_run_end_from(hs, first_gpu(hs, 0));
    assert forall|k: int| 0 <= k < f.gpus.len() implies {
        let g = (first_gpu(hs, 0) + k) as nat;
        &&& (#[trigger] f.gpus@[k]).util@ == cell_of(
            rec,
            column_of(hs, gpu_column_name(g, "Util(%)"@)),
        )
        &&& f.gpus@[k].clk@ == cell_of(rec, column_of(hs, gpu_column_name(g, "Clk(MHz)"@)))
        &&& f.gpus@[k].mem_clk@ == cell_of(rec, column_of(hs, gpu_column_name(g, "MemClk(MHz)"@)))
        &&& f.gpus@[k].temp@ == cell_of(rec, column_of(hs, gpu_column_name(g, "Temp(C)"@)))
    } by {
        assert(cols.gpus@[k] == gpu_group(hs, (first_gpu(hs, 0) + k) as nat));
    }
    assert forall|c: int| 0 <= c < MAX_CORES implies (#[trigger] f.cores@[c])@ == cell_of(
        rec,
        core_column(hs, c as nat),
    ) by {
        assert(cols.cores@[c] == core_column(hs, c as nat));
    }
}


proof fn lemma_gpu_run_end_from(hs: Seq<Seq<char>>, from: nat)
    ensures
        from <= gpu_run_end(hs, from),
    decreases GPU_SCAN - from,
{
    if from < GPU_SCAN && gpu_present(gpu_group(hs, from)) {
        lemma_gpu_run_end_from(hs, from + 1);
    }
}

} // verus!
