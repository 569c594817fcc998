use gradcat::args::{Args, Task};
use gradcat::colors::RGB;
use gradcat::gradient::GradientMode;

fn parse(args: &[&str]) -> Args {
    let owned: Vec<String> = args.iter().map(|a| a.to_string()).collect();
    Args::parse(&owned, false)
}

fn strings(list: &[&str]) -> Vec<String> {
    list.iter().map(|s| s.to_string()).collect()
}

#[test]
fn the_defaults_are_the_rainbow_from_red_to_blue() {
    let args = Args::default();
    assert_eq!(args.files, Vec::<String>::new());
    assert_eq!(args.mode, GradientMode::Rainbow);
    assert_eq!(args.frequency, None);
    assert_eq!(args.spread, None);
    assert_eq!(args.offset, None);
    assert_eq!(args.start_color, RGB(255, 0, 0));
    assert_eq!(args.end_color, RGB(0, 0, 255));
    assert!(!args.no_color);
    assert!(!args.show_help);
    assert!(!args.show_version);
}

#[test]
fn no_arguments_give_the_defaults() {
    let args = parse(&[]);
    let defaults = Args::default();
    assert_eq!(args.files, defaults.files);
    assert_eq!(args.mode, defaults.mode);
    assert_eq!(args.frequency, defaults.frequency);
    assert_eq!(args.spread, defaults.spread);
    assert_eq!(args.offset, defaults.offset);
    assert_eq!(args.start_color, defaults.start_color);
    assert_eq!(args.end_color, defaults.end_color);
    assert_eq!(args.no_color, defaults.no_color);
    assert_eq!(args.show_help, defaults.show_help);
    assert_eq!(args.show_version, defaults.show_version);
    assert_eq!(args.task(), Task::StandardInput);
}

#[test]
fn arguments_without_a_dash_are_files_in_order() {
    let args = parse(&["b.txt", "a.txt", "--mode", "linear", "c.txt"]);
    assert_eq!(args.files, strings(&["b.txt", "a.txt", "c.txt"]));
    assert_eq!(args.mode, GradientMode::Linear);
    assert_eq!(args.task(), Task::Files);
}

#[test]
fn a_flag_takes_the_next_argument_as_its_value() {
    let args = parse(&[
        "--frequency",
        "2.5",
        "--spread",
        "30",
        "--offset",
        "0",
        "--start-color",
        "#00FF00",
        "--end-color",
        "1, 2, 3",
    ]);
    assert_eq!(args.frequency, Some("2.5".to_string()));
    assert_eq!(args.spread, Some("30".to_string()));
    assert_eq!(args.offset, Some("0".to_string()));
    assert_eq!(args.start_color, RGB(0, 255, 0));
    assert_eq!(args.end_color, RGB(1, 2, 3));
    assert_eq!(args.files, Vec::<String>::new());
}

#[test]
fn a_flag_before_a_flag_or_at_the_end_is_true() {
    let args = parse(&["--frequency", "--spread", "--offset"]);
    assert_eq!(args.frequency, Some("true".to_string()));
    assert_eq!(args.spread, Some("true".to_string()));
    assert_eq!(args.offset, Some("true".to_string()));
    let args = parse(&["--offset", "-5"]);
    assert_eq!(args.offset, Some("true".to_string()));
    assert_eq!(args.files, Vec::<String>::new());
}

#[test]
fn a_boolean_flag_swallows_a_file_that_follows_it() {
    let args = parse(&["--no-color", "notes.txt", "more.txt"]);
    assert!(args.no_color);
    assert_eq!(args.files, strings(&["more.txt"]));
    let args = parse(&["notes.txt", "--no-color"]);
    assert!(args.no_color);
    assert_eq!(args.files, strings(&["notes.txt"]));
}

#[test]
fn any_number_of_dashes_opens_a_flag() {
    assert_eq!(parse(&["-mode", "linear"]).mode, GradientMode::Linear);
    assert_eq!(parse(&["--mode", "linear"]).mode, GradientMode::Linear);
    assert_eq!(parse(&["----mode", "LINEAR"]).mode, GradientMode::Linear);
    assert!(parse(&["-h"]).show_help);
    assert!(parse(&["--h"]).show_help);
    assert!(parse(&["-help"]).show_help);
    assert!(parse(&["--help"]).show_help);
    assert!(parse(&["-v"]).show_version);
    assert!(parse(&["--version"]).show_version);
    let args = parse(&["-", "--", "file"]);
    assert_eq!(args.files, Vec::<String>::new());
    assert!(!args.show_help);
}

#[test]
fn the_last_of_a_repeated_flag_counts() {
    let args = parse(&["--mode", "linear", "--mode", "rainbow"]);
    assert_eq!(args.mode, GradientMode::Rainbow);
    let args = parse(&["--mode", "rainbow", "-mode", "linear"]);
    assert_eq!(args.mode, GradientMode::Linear);
    let args = parse(&["--spread", "1", "--spread", "2", "--spread"]);
    assert_eq!(args.spread, Some("true".to_string()));
    let args = parse(&["--start-color", "#010203", "--start-color", "oops"]);
    assert_eq!(args.start_color, RGB(255, 0, 0));
}

#[test]
fn an_unknown_mode_falls_back_to_the_rainbow() {
    assert_eq!(parse(&["--mode", "plaid"]).mode, GradientMode::Rainbow);
    assert_eq!(parse(&["--mode"]).mode, GradientMode::Rainbow);
    assert_eq!(parse(&["--mode", "rainbow"]).mode, GradientMode::Rainbow);
}

#[test]
fn a_colour_that_does_not_parse_keeps_the_default() {
    let args = parse(&["--start-color", "#GGGGGG", "--end-color", "1,2"]);
    assert_eq!(args.start_color, RGB(255, 0, 0));
    assert_eq!(args.end_color, RGB(0, 0, 255));
    let args = parse(&["--start-color", "300,0,0", "--end-color"]);
    assert_eq!(args.start_color, RGB(255, 0, 0));
    assert_eq!(args.end_color, RGB(0, 0, 255));
    let args = parse(&["--end-color", "#102030"]);
    assert_eq!(args.start_color, RGB(255, 0, 0));
    assert_eq!(args.end_color, RGB(16, 32, 48));
}

#[test]
fn colour_is_off_by_flag_or_by_environment() {
    let none: Vec<String> = Vec::new();
    assert!(!Args::parse(&none, false).no_color);
    assert!(Args::parse(&none, true).no_color);
    assert!(Args::parse(&strings(&["--no-color"]), false).no_color);
    assert!(Args::parse(&strings(&["--no-color"]), true).no_color);
    assert!(Args::parse(&strings(&["--no-color", "false"]), false).no_color);
    assert!(!Args::parse(&strings(&["--nocolor"]), false).no_color);
}

#[test]
fn unknown_flags_are_ignored() {
    let args = parse(&["--colour", "yes", "--x", "file.txt"]);
    assert_eq!(args.files, Vec::<String>::new());
    assert_eq!(args.mode, GradientMode::Rainbow);
    assert!(!args.no_color);
    let args = parse(&["--x", "--y", "file.txt", "other.txt"]);
    assert_eq!(args.files, strings(&["other.txt"]));
}

#[test]
fn help_goes_before_version_and_both_before_input() {
    assert_eq!(parse(&["--help", "--version"]).task(), Task::Help);
    assert_eq!(parse(&["--version", "--help"]).task(), Task::Help);
    assert_eq!(parse(&["a.txt", "-h"]).task(), Task::Help);
    assert_eq!(parse(&["a.txt", "-v"]).task(), Task::Version);
    assert_eq!(parse(&["--version"]).task(), Task::Version);
    assert_eq!(parse(&["a.txt"]).task(), Task::Files);
    assert_eq!(parse(&["--mode", "linear"]).task(), Task::StandardInput);
    let mut args = parse(&["gone.txt"]);
    args.files.clear();
    assert_eq!(args.task(), Task::StandardInput);
}

#[test]
fn the_renderer_gets_mode_colours_and_switch() {
    let args = parse(&["--mode", "linear", "--start-color", "1,2,3", "--no-color"]);
    let config = args.render_config();
    assert_eq!(config.mode, GradientMode::Linear);
    assert_eq!(config.start_color, RGB(1, 2, 3));
    assert_eq!(config.end_color, RGB(0, 0, 255));
    assert!(config.no_color);
    let config = Args::default().render_config();
    assert_eq!(config.mode, GradientMode::Rainbow);
    assert_eq!(config.start_color, RGB(255, 0, 0));
    assert_eq!(config.end_color, RGB(0, 0, 255));
    assert!(!config.no_color);
}
