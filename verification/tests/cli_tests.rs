use frameview_gui::cli::{fallback_view, startup, Startup};
use frameview_gui::cli::starts_with_chars;
use frameview_gui::cli::{parse_args, view_from_arg};
use frameview_gui::menu::{menu_choice, MenuAction};
use frameview_gui::view::View;

fn args(items: &[&str]) -> Vec<String> {
    items.iter().map(|s| s.to_string()).collect()
}

#[test]
fn defaults_without_arguments() {
    let o = parse_args(&args(&["prog"]));
    assert!(!o.no_gui && !o.export_only && !o.hist_log_y);
    assert_eq!(o.direct_view, None);
    assert_eq!(o.path, None);
    assert!(o.unknown.is_empty());
}

#[test]
fn flags_and_path() {
    let o = parse_args(&args(&["prog", "capture.csv", "--hist-log-y", "--no-gui", "other.csv"]));
    assert!(o.no_gui && o.hist_log_y && !o.export_only);
    assert_eq!(o.path, Some("capture.csv".to_string()));
}

#[test]
fn export_only_implies_no_gui() {
    let o = parse_args(&args(&["prog", "--export-only", "c.csv"]));
    assert!(o.export_only && o.no_gui);
}

#[test]
fn view_option_forms() {
    assert_eq!(parse_args(&args(&["p", "--view", "3"])).direct_view, Some(View::Histogram));
    assert_eq!(parse_args(&args(&["p", "-v", "6"])).direct_view, Some(View::Latency));
    assert_eq!(parse_args(&args(&["p", "--view=4"])).direct_view, Some(View::Gpu));
    assert_eq!(parse_args(&args(&["p", "--view=x"])).direct_view, Some(View::FrameTime));
    assert_eq!(parse_args(&args(&["p", "--view", "9"])).direct_view, Some(View::FrameTime));
    assert_eq!(parse_args(&args(&["p", "--view"])).direct_view, None);
}

#[test]
fn view_argument_is_consumed() {
    let o = parse_args(&args(&["p", "--view", "2", "c.csv"]));
    assert_eq!(o.direct_view, Some(View::Report));
    assert_eq!(o.path, Some("c.csv".to_string()));
    let o = parse_args(&args(&["p", "-v", "c.csv"]));
    assert_eq!(o.direct_view, Some(View::FrameTime));
    assert_eq!(o.path, None);
}

#[test]
fn unknown_options_are_collected() {
    let o = parse_args(&args(&["p", "--bogus", "-", "-x"]));
    assert_eq!(o.unknown, vec!["--bogus".to_string(), "-x".to_string()]);
    assert_eq!(o.path, Some("-".to_string()));
}

#[test]
fn view_from_argument() {
    assert_eq!(view_from_arg("5"), View::Cpu);
    assert_eq!(view_from_arg("+2"), View::Report);
    assert_eq!(view_from_arg(" 2"), View::FrameTime);
    assert_eq!(view_from_arg("0"), View::FrameTime);
}

#[test]
fn menu_choices() {
    assert_eq!(menu_choice("q\n"), MenuAction::Quit);
    assert_eq!(menu_choice("  Q  "), MenuAction::Quit);
    assert_eq!(menu_choice("\n"), MenuAction::Quit);
    assert_eq!(menu_choice(""), MenuAction::Quit);
    assert_eq!(menu_choice("0\n"), MenuAction::OpenAll);
    assert_eq!(menu_choice("3\r\n"), MenuAction::Open(View::Histogram));
    assert_eq!(menu_choice("6"), MenuAction::Open(View::Latency));
    assert_eq!(menu_choice("7"), MenuAction::Invalid);
    assert_eq!(menu_choice("quit"), MenuAction::Invalid);
    assert_eq!(menu_choice("-1"), MenuAction::Invalid);
}

#[test]
fn startup_plans() {
    let o = parse_args(&args(&["p", "--export-only", "--view", "2"]));
    assert_eq!(startup(&o), Startup::ExportOnly);
    let o = parse_args(&args(&["p", "--no-gui", "-v", "5"]));
    assert_eq!(startup(&o), Startup::Viewer { view: View::Cpu, menu: false });
    let o = parse_args(&args(&["p", "--no-gui"]));
    assert_eq!(startup(&o), Startup::Viewer { view: View::FrameTime, menu: true });
    let o = parse_args(&args(&["p", "c.csv"]));
    assert_eq!(startup(&o), Startup::Gui);
    assert_eq!(fallback_view(&o), View::FrameTime);
    let o = parse_args(&args(&["p", "--view=6"]));
    assert_eq!(fallback_view(&o), View::Latency);
}

#[test]
fn starts_with_characters() {
    let s: Vec<char> = "--view=3".chars().collect();
    let p: Vec<char> = "--view=".chars().collect();
    assert!(starts_with_chars(&s, &p));
    assert!(!starts_with_chars(&p, &s));
    assert!(starts_with_chars(&s, &Vec::new()));
}
