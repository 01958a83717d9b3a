//! Command-line argument decisions.
use vstd::prelude::*;

use crate::text::{chars_of, decimal, lemma_parse_decimal, parse_u32, parse_unsigned};
use crate::view::{view_from_number, View};
use vstd::view::View as _;

verus! {

/// What the command line asks for.
pub struct CliOptions {
    /// Render the charts and do not start the interactive viewer.
    pub no_gui: bool,
    /// Only export the charts, opening no window at all.
    pub export_only: bool,
    /// Use a log-scale count axis on the histogram.
    pub hist_log_y: bool,
    /// The single view to open, if one was asked for.
    pub direct_view: Option<View>,
    /// The capture log to load: the first argument that is not an option.
    pub path: Option<String>,
    /// Arguments that look like options but are not known, in order.
    pub unknown: Vec<String>,
}

/// The content of a `CliOptions`.
pub struct CliModel {
    pub no_gui: bool,
    pub export_only: bool,
    pub hist_log_y: bool,
    pub direct_view: Option<View>,
    pub path: Option<Seq<char>>,
    pub unknown: Seq<Seq<char>>,
}

impl CliOptions {
    /// The content of these options, with strings as character sequences.
    pub open spec fn model(&self) -> CliModel {
        CliModel {
            no_gui: self.no_gui,
            export_only: self.export_only,
            hist_log_y: self.hist_log_y,
            direct_view: self.direct_view,
            path: match self.path {
                Some(p) => Some(p@),
                None => None,
            },
            unknown: self.unknown@.map_values(|u: String| u@),
        }
    }
}

/// The options before any argument is read.
pub open spec fn cli_default() -> CliModel {
    CliModel {
        no_gui: false,
        export_only: false,
        hist_log_y: false,
        direct_view: None,
        path: None,
        unknown: Seq::empty(),
    }
}

/// The view that the argument of `--view` selects: its number, read as a
/// `u32`; a number outside `2..=6`, or an argument that is not a number,
/// selects view 1.
pub open spec fn view_arg(s: Seq<char>) -> View {
    match parse_unsigned(s, u32::MAX as nat) {
        Some(n) => view_from_number(n as u32),
        None => view_from_number(1),
    }
}

pub open spec fn starts_with(s: Seq<char>, p: Seq<char>) -> bool {
    p.len() <= s.len() && s.take(p.len() as int) == p
}

/// The options after reading `args[i..]`, starting from `m`.
pub open spec fn cli_scan(args: Seq<Seq<char>>, i: nat, m: CliModel) -> CliModel
    decreases args.len() - i,
{
    if i >= args.len() {
        m
    } else {
        let a = args[i as int];
        if a == "--no-gui"@ {
            cli_scan(args, i + 1, CliModel { no_gui: true, ..m })
        } else if a == "--hist-log-y"@ {
            cli_scan(args, i + 1, CliModel { hist_log_y: true, ..m })
        } else if a == "--export-only"@ {
            cli_scan(args, i + 1, CliModel { export_only: true, no_gui: true, ..m })
        } else if a == "--view"@ || a == "-v"@ {
            if i + 1 < args.len() {
                cli_scan(
                    args,
                    i + 2,
                    CliModel { direct_view: Some(view_arg(args[i + 1int])), ..m },
                )
            } else {
                m
            }
        } else if starts_with(a, "--view="@) {
            cli_scan(
                args,
                i + 1,
                CliModel { direct_view: Some(view_arg(a.skip("--view="@.len() as int))), ..m },
            )
        } else if a.len() > 1 && a[0] == '-' {
            cli_scan(args, i + 1, CliModel { unknown: m.unknown.push(a), ..m })
        } else if m.path is None {
            cli_scan(args, i + 1, CliModel { path: Some(a), ..m })
        } else {
            cli_scan(args, i + 1, m)
        }
    }
}

/// The options that a command line (`args[0]` being the program) asks for.
pub open spec fn cli_options_of(args: Seq<Seq<char>>) -> CliModel {
    cli_scan(args, 1, cli_default())
}

/// The view that the argument of `--view` selects.
pub fn view_from_arg(s: &str) -> (v: View)
    ensures
        v == view_arg(s@),
{
    match parse_u32(s) {
        Some(n) => View::from(n),
        None => View::from(1),
    }
}

/// Whether `s` begins with `p`.
pub fn starts_with_chars(s: &Vec<char>, p: &Vec<char>) -> (b: bool)
    ensures
        b == starts_with(s@, p@),
{
    if p.len() > s.len() {
        return false;
    }
    let mut k: usize = 0;
    while k < p.len()
        invariant
            k <= p.len() <= s.len(),
            forall|j: int| 0 <= j < k ==> #[trigger] s@[j] == p@[j],
        decreases p.len() - k,
    {
        if s[k] != p[k] {
            assert(s@.take(p.len() as int)[k as int] != p@[k as int]);
            return false;
        }
        k = k + 1;
    }
    assert(s@.take(p.len() as int) =~= p@);
    true
}

/// Reads a command line; `args[0]` is the program. `--no-gui`,
/// `--hist-log-y` and `--export-only` (which implies `--no-gui`) set flags;
/// `--view N`, `-v N` and `--view=N` select a view; other arguments that begin
/// with `-` and are longer than that are collected as unknown; the first
/// remaining argument is the path.
pub fn parse_args(args: &Vec<String>) -> (r: CliOptions)
    ensures
        r.model() == cli_options_of(args@.map_values(|a: String| a@)),
{
    let ghost sa = args@.map_values(|a: String| a@);
    let mut r = CliOptions {
        no_gui: false,
        export_only: false,
        hist_log_y: false,
        direct_view: None,
        path: None,
        unknown: Vec::new(),
    };
    assert(r.model().unknown =~= Seq::<Seq<char>>::empty());
    let no_gui = String::from_str("--no-gui");
    let hist_log_y = String::from_str("--hist-log-y");
    let export_only = String::from_str("--export-only");
    let view_long = String::from_str("--view");
    let view_short = String::from_str("-v");
    let view_eq = chars_of("--view=");
    let mut i: usize = 1;
    while i < args.len()
        invariant
            sa == args@.map_values(|a: String| a@),
            no_gui@ == "--no-gui"@,
            hist_log_y@ == "--hist-log-y"@,
            export_only@ == "--export-only"@,
            view_long@ == "--view"@,
            view_short@ == "-v"@,
            view_eq@ == "--view="@,
            cli_scan(sa, i as nat, r.model()) == cli_options_of(sa),
        decreases args.len() - i,
    {
        let a = &args[i];
        assert(sa[i as int] == a@);
        let ghost m = r.model();
        if *a == no_gui {
            r.no_gui = true;
            i = i + 1;
        } else if *a == hist_log_y {
            r.hist_log_y = true;
            i = i + 1;
        } else if *a == export_only {
            r.export_only = true;
            r.no_gui = true;
            i = i + 1;
        } else if *a == view_long || *a == view_short {
            if i + 1 < args.len() {
                assert(sa[i + 1] == args@[i + 1]@);
                r.direct_view = Some(view_from_arg(args[i + 1].as_str()));
                i = i + 2;
            } else {
                i = args.len();
            }
        } else {
            let cs = chars_of(a.as_str());
            if starts_with_chars(&cs, &view_eq) {
                let rest = a.as_str().substring_char(view_eq.len(), cs.len());
                r.direct_view = Some(view_from_arg(rest));
                i = i + 1;
            } else if cs.len() > 1 && cs[0] == '-' {
                r.unknown.push(a.clone());
                assert(r.model().unknown =~= m.unknown.push(a@));
                i = i + 1;
            } else if r.path.is_none() {
                r.path = Some(a.clone());
                i = i + 1;
            } else {
                i = i + 1;
            }
        }
    }
    r
}

/// Asking only to export implies not starting the interactive viewer.
pub proof fn lemma_export_only_implies_no_gui(args: Seq<Seq<char>>)
    ensures
        cli_options_of(args).export_only ==> cli_options_of(args).no_gui,
{
    lemma_scan_keeps_no_gui(args, 1, cli_default());
}

proof fn lemma_scan_keeps_no_gui(args: Seq<Seq<char>>, i: nat, m: CliModel)
    requires
        m.export_only ==> m.no_gui,
    ensures
        cli_scan(args, i, m).export_only ==> cli_scan(args, i, m).no_gui,
    decreases args.len() - i,
{
    if i < args.len() {
        let a = args[i as int];
        if a == "--no-gui"@ {
            lemma_scan_keeps_no_gui(args, i + 1, CliModel { no_gui: true, ..m });
        } else if a == "--hist-log-y"@ {
            lemma_scan_keeps_no_gui(args, i + 1, CliModel { hist_log_y: true, ..m });
        } else if a == "--export-only"@ {
            lemma_scan_keeps_no_gui(args, i + 1, CliModel { export_only: true, no_gui: true, ..m });
        } else if a == "--view"@ || a == "-v"@ {
            if i + 1 < args.len() {
                lemma_scan_keeps_no_gui(
                    args,
                    i + 2,
                    CliModel { direct_view: Some(view_arg(args[i + 1int])), ..m },
                );
            }
        } else if starts_with(a, "--view="@) {
            lemma_scan_keeps_no_gui(
                args,
                i + 1,
                CliModel { direct_view: Some(view_arg(a.skip("--view="@.len() as int))), ..m },
            );
        } else if a.len() > 1 && a[0] == '-' {
            lemma_scan_keeps_no_gui(args, i + 1, CliModel { unknown: m.unknown.push(a), ..m });
        } else if m.path is None {
            lemma_scan_keeps_no_gui(args, i + 1, CliModel { path: Some(a), ..m });
        } else {
            lemma_scan_keeps_no_gui(args, i + 1, m);
        }
    }
}


/// What the program does once the charts have been exported.
#[derive(Clone, Copy, PartialEq, Eq, Debug, Structural)]
pub enum Startup {
    /// Stop: only the exported files were asked for.
    ExportOnly,
    /// Open a saved chart in the system viewer, then offer the terminal menu
    /// when no single view was asked for.
    Viewer { view: View, menu: bool },
    /// Start the interactive viewer.
    Gui,
}

/// What the program does after exporting the charts: `--export-only` stops,
/// `--no-gui` opens the asked-for view (or the first view followed by the
/// menu), and otherwise the interactive viewer starts.
pub fn startup(opts: &CliOptions) -> (r: Startup)
    ensures
        opts.export_only ==> r == Startup::ExportOnly,
        !opts.export_only && opts.no_gui ==> r == (match opts.direct_view {
            Some(v) => Startup::Viewer { view: v, menu: false },
            None => Startup::Viewer { view: View::FrameTime, menu: true },
        }),
        !opts.export_only && !opts.no_gui ==> r == Startup::Gui,
{
    if opts.export_only {
        Startup::ExportOnly
    } else if opts.no_gui {
        match opts.direct_view {
            Some(v) => Startup::Viewer { view: v, menu: false },
            None => Startup::Viewer { view: View::FrameTime, menu: true },
        }
    } else {
        Startup::Gui
    }
}

/// The saved chart opened when the interactive viewer cannot start: the
/// asked-for view, or the first one.
pub fn fallback_view(opts: &CliOptions) -> (v: View)
    ensures
        v == match opts.direct_view {
            Some(d) => d,
            None => View::FrameTime,
        },
{
    match opts.direct_view {
        Some(d) => d,
        None => View::FrameTime,
    }
}


/// Whether argument `i` is read as an option word (and not as the value that
/// follows `--view` or `-v`) when reading starts at position `p`: reading visits
/// every position in turn, except that the word after `--view` or `-v` is that
/// option's value.
pub open spec fn read_as_option(args: Seq<Seq<char>>, p: nat, i: int) -> bool
    decreases args.len() - p,
{
    if p >= args.len() {
        false
    } else if i == p {
        true
    } else if args[p as int] == "--view"@ || args[p as int] == "-v"@ {
        p + 1 < args.len() && read_as_option(args, p + 2, i)
    } else {
        read_as_option(args, p + 1, i)
    }
}

/// Whether `flag` is given as an option word from position `p` on.
pub open spec fn flag_from(args: Seq<Seq<char>>, p: nat, flag: Seq<char>) -> bool {
    exists|i: int| #[trigger] read_as_option(args, p, i) && args[i] == flag
}

/// Whether `flag` is given as an option word on the command line (`args[0]`
/// being the program).
pub open spec fn flag_given(args: Seq<Seq<char>>, flag: Seq<char>) -> bool {
    flag_from(args, 1, flag)
}

proof fn lemma_read_as_option_in_range(args: Seq<Seq<char>>, p: nat, i: int)
    requires
        read_as_option(args, p, i),
    ensures
        p <= i < args.len(),
    decreases args.len() - p,
{
    if p < args.len() && i != p {
        if args[p as int] == "--view"@ || args[p as int] == "-v"@ {
            lemma_read_as_option_in_range(args, p + 2, i);
        } else {
            lemma_read_as_option_in_range(args, p + 1, i);
        }
    }
}

/// One step of `flag_from`: the word at `p`, or the words read after it.
proof fn lemma_flag_from_step(args: Seq<Seq<char>>, p: nat, flag: Seq<char>)
    requires
        p < args.len(),
    ensures
        flag_from(args, p, flag) == (args[p as int] == flag || if args[p as int] == "--view"@
            || args[p as int] == "-v"@ {
            p + 1 < args.len() && flag_from(args, p + 2, flag)
        } else {
            flag_from(args, p + 1, flag)
        }),
{
    let is_view = args[p as int] == "--view"@ || args[p as int] == "-v"@;
    if flag_from(args, p, flag) {
        let i = choose|i: int| #[trigger] read_as_option(args, p, i) && args[i] == flag;
        if i != p {
            if is_view {
                assert(read_as_option(args, p + 2, i));
            } else {
                assert(read_as_option(args, p + 1, i));
            }
        }
    }
    if args[p as int] == flag {
        assert(read_as_option(args, p, p as int));
    }
    if is_view && p + 1 < args.len() && flag_from(args, p + 2, flag) {
        let i = choose|i: int| #[trigger] read_as_option(args, p + 2, i) && args[i] == flag;
        lemma_read_as_option_in_range(args, p + 2, i);
        assert(read_as_option(args, p, i));
    }
    if !is_view && flag_from(args, p + 1, flag) {
        let i = choose|i: int| #[trigger] read_as_option(args, p + 1, i) && args[i] == flag;
        lemma_read_as_option_in_range(args, p + 1, i);
        assert(read_as_option(args, p, i));
    }
}

proof fn lemma_flag_from_end(args: Seq<Seq<char>>, p: nat, flag: Seq<char>)
    requires
        p >= args.len(),
    ensures
        !flag_from(args, p, flag),
{
    if flag_from(args, p, flag) {
        let i = choose|i: int| #[trigger] read_as_option(args, p, i) && args[i] == flag;
        lemma_read_as_option_in_range(args, p, i);
    }
}

proof fn lemma_scan_flags(args: Seq<Seq<char>>, p: nat, m: CliModel)
    ensures
        cli_scan(args, p, m).no_gui == (m.no_gui || flag_from(args, p, "--no-gui"@) || flag_from(
            args,
            p,
            "--export-only"@,
        )),
        cli_scan(args, p, m).export_only == (m.export_only || flag_from(
            args,
            p,
            "--export-only"@,
        )),
        cli_scan(args, p, m).hist_log_y == (m.hist_log_y || flag_from(args, p, "--hist-log-y"@)),
    decreases args.len() - p,
{
    reveal_strlit("--no-gui");
    reveal_strlit("--export-only");
    reveal_strlit("--hist-log-y");
    reveal_strlit("--view");
    reveal_strlit("-v");
    if p >= args.len() {
        lemma_flag_from_end(args, p, "--no-gui"@);
        lemma_flag_from_end(args, p, "--export-only"@);
        lemma_flag_from_end(args, p, "--hist-log-y"@);
    } else {
        lemma_flag_from_step(args, p, "--no-gui"@);
        lemma_flag_from_step(args, p, "--export-only"@);
        lemma_flag_from_step(args, p, "--hist-log-y"@);
        let a = args[p as int];
        assert("--no-gui"@.len() == 8);
        assert("--export-only"@.len() == 13);
        assert("--hist-log-y"@.len() == 12);
        assert("--no-gui"@ != "--export-only"@);
        assert("--no-gui"@ != "--hist-log-y"@);
        assert("--export-only"@ != "--hist-log-y"@);
        assert("--view"@ != "--no-gui"@ && "--view"@ != "--export-only"@ && "--view"@
            != "--hist-log-y"@);
        assert("-v"@ != "--no-gui"@ && "-v"@ != "--export-only"@ && "-v"@ != "--hist-log-y"@);
        if a == "--no-gui"@ {
            lemma_scan_flags(args, p + 1, CliModel { no_gui: true, ..m });
        } else if a == "--hist-log-y"@ {
            lemma_scan_flags(args, p + 1, CliModel { hist_log_y: true, ..m });
        } else if a == "--export-only"@ {
            lemma_scan_flags(args, p + 1, CliModel { export_only: true, no_gui: true, ..m });
        } else if a == "--view"@ || a == "-v"@ {
            if p + 1 < args.len() {
                lemma_scan_flags(
                    args,
                    p + 2,
                    CliModel { direct_view: Some(view_arg(args[p + 1int])), ..m },
                );
            }
        } else if starts_with(a, "--view="@) {
            lemma_scan_flags(
                args,
                p + 1,
                CliModel { direct_view: Some(view_arg(a.skip("--view="@.len() as int))), ..m },
            );
        } else if a.len() > 1 && a[0] == '-' {
            lemma_scan_flags(args, p + 1, CliModel { unknown: m.unknown.push(a), ..m });
        } else if m.path is None {
            lemma_scan_flags(args, p + 1, CliModel { path: Some(a), ..m });
        } else {
            lemma_scan_flags(args, p + 1, m);
        }
    }
}

/// Each flag sets only its own option: the interactive viewer is skipped
/// exactly when `--no-gui` or `--export-only` is given as an option word,
/// only-export is asked exactly when `--export-only` is given, and the log-scale
/// histogram exactly when `--hist-log-y` is given. No other argument changes
/// these three options.
pub proof fn lemma_flags_set_only_their_option(args: Seq<Seq<char>>)
    ensures
        cli_options_of(args).no_gui == (flag_given(args, "--no-gui"@) || flag_given(
            args,
            "--export-only"@,
        )),
        cli_options_of(args).export_only == flag_given(args, "--export-only"@),
        cli_options_of(args).hist_log_y == flag_given(args, "--hist-log-y"@),
{
    lemma_scan_flags(args, 1, cli_default());
}


/// The argument of `--view` picks the chart listed under that number for
/// `1` to `6`, and the first chart for any other number.
pub proof fn lemma_view_arg_numbers(n: nat)
    requires
        n <= u32::MAX,
    ensures
        1 <= n <= 6 ==> crate::view::view_number(view_arg(decimal(n))) == n,
        !(1 <= n <= 6) ==> view_arg(decimal(n)) == View::FrameTime,
{
    lemma_parse_decimal(n, u32::MAX as nat);
}

} // verus!
