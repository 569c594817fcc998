//! The command line: which arguments are flags, which values belong to
//! them, which are files, and what the flags ask for.

use crate::colors::{parse_color, RGB};
use crate::gradient::{mode_named, GradientMode};
use crate::render::RenderConfig;
use crate::text::{to_chars, to_text};
use std::str::FromStr;
use vstd::prelude::*;

verus! {

/// Whether an argument is a flag: it starts with a dash.
pub open spec fn is_flag(arg: Seq<char>) -> bool {
    arg.len() > 0 && arg[0] == '-'
}

/// The name of a flag: the argument without its leading dashes, however
/// many they are.
pub open spec fn flag_name(arg: Seq<char>) -> Seq<char>
    decreases arg.len(),
{
    if arg.len() > 0 && arg[0] == '-' {
        flag_name(arg.drop_first())
    } else {
        arg
    }
}

/// Whether the flag at the head of `args` has a value: there is a next
/// argument, and that is no flag.
pub open spec fn takes_value(args: Seq<Seq<char>>) -> bool {
    args.len() >= 2 && !is_flag(args[1])
}

/// The options that the arguments set, in the order in which they stand: each
/// flag with the argument after it as its value or, where none follows or a
/// flag follows, with `true`.
pub open spec fn scanned_options(args: Seq<Seq<char>>) -> Seq<(Seq<char>, Seq<char>)>
    decreases args.len(),
{
    if args.len() == 0 {
        Seq::empty()
    } else if !is_flag(args[0]) {
        scanned_options(args.skip(1))
    } else if takes_value(args) {
        seq![(flag_name(args[0]), args[1])] + scanned_options(args.skip(2))
    } else {
        seq![(flag_name(args[0]), "true"@)] + scanned_options(args.skip(1))
    }
}

/// The arguments that are neither a flag nor the value of one, in the
/// order in which they stand.
pub open spec fn scanned_files(args: Seq<Seq<char>>) -> Seq<Seq<char>>
    decreases args.len(),
{
    if args.len() == 0 {
        Seq::empty()
    } else if !is_flag(args[0]) {
        seq![args[0]] + scanned_files(args.skip(1))
    } else if takes_value(args) {
        scanned_files(args.skip(2))
    } else {
        scanned_files(args.skip(1))
    }
}

/// The value of the option `name`: that of its last occurrence, if it
/// occurs.
pub open spec fn option_value(options: Seq<(Seq<char>, Seq<char>)>, name: Seq<char>) -> Option<
    Seq<char>,
>
    decreases options.len(),
{
    if options.len() == 0 {
        None
    } else if options.last().0 == name {
        Some(options.last().1)
    } else {
        option_value(options.drop_last(), name)
    }
}

/// The colour that an option sets: its value where that is a colour, else
/// `default`.
pub open spec fn color_or(value: Option<Seq<char>>, default: RGB<u8>) -> RGB<u8> {
    match value {
        Some(text) => match parse_color(text) {
            Ok(color) => color,
            Err(_) => default,
        },
        None => default,
    }
}

/// The command-line arguments, read.
pub struct Args {
    /// The arguments that name files, in the order given.
    pub files: Vec<String>,
    /// The kind of gradient.
    pub mode: GradientMode,
    /// What was given as the rainbow's frequency, if anything.
    pub frequency: Option<String>,
    /// What was given as the rainbow's spread, if anything.
    pub spread: Option<String>,
    /// What was given as the rainbow's offset, if anything.
    pub offset: Option<String>,
    /// Where the linear gradient starts.
    pub start_color: RGB<u8>,
    /// Where the linear gradient ends.
    pub end_color: RGB<u8>,
    /// Colour is off.
    pub no_color: bool,
    /// The usage text is asked for.
    pub show_help: bool,
    /// The version is asked for.
    pub show_version: bool,
}

/// What `Args` holds, as plain text.
pub struct ArgsView {
    pub files: Seq<Seq<char>>,
    pub mode: GradientMode,
    pub frequency: Option<Seq<char>>,
    pub spread: Option<Seq<char>>,
    pub offset: Option<Seq<char>>,
    pub start_color: RGB<u8>,
    pub end_color: RGB<u8>,
    pub no_color: bool,
    pub show_help: bool,
    pub show_version: bool,
}

/// The text of an optional string.
pub open spec fn text_of(value: Option<String>) -> Option<Seq<char>> {
    match value {
        Some(s) => Some(s@),
        None => None,
    }
}

/// The texts of a list of strings.
pub open spec fn texts_of(list: Seq<String>) -> Seq<Seq<char>> {
    list.map_values(|s: String| s@)
}

impl View for Args {
    type V = ArgsView;

    open spec fn view(&self) -> ArgsView {
        ArgsView {
            files: texts_of(self.files@),
            mode: self.mode,
            frequency: text_of(self.frequency),
            spread: text_of(self.spread),
            offset: text_of(self.offset),
            start_color: self.start_color,
            end_color: self.end_color,
            no_color: self.no_color,
            show_help: self.show_help,
            show_version: self.show_version,
        }
    }
}

/// The arguments of a run without any: the rainbow from red to blue, in
/// colour, reading no file.
pub open spec fn default_args() -> ArgsView {
    ArgsView {
        files: Seq::empty(),
        mode: GradientMode::Rainbow,
        frequency: None,
        spread: None,
        offset: None,
        start_color: RGB(255, 0, 0),
        end_color: RGB(0, 0, 255),
        no_color: false,
        show_help: false,
        show_version: false,
    }
}

/// What the arguments `args` ask for; `env_no_color` says whether the
/// environment asks for no colour.
pub open spec fn parsed_args(args: Seq<Seq<char>>, env_no_color: bool) -> ArgsView {
    let options = scanned_options(args);
    ArgsView {
        files: scanned_files(args),
        mode: match option_value(options, "mode"@) {
            Some(name) => mode_named(name),
            None => GradientMode::Rainbow,
        },
        frequency: option_value(options, "frequency"@),
        spread: option_value(options, "spread"@),
        offset: option_value(options, "offset"@),
        start_color: color_or(option_value(options, "start-color"@), RGB(255, 0, 0)),
        end_color: color_or(option_value(options, "end-color"@), RGB(0, 0, 255)),
        no_color: env_no_color || option_value(options, "no-color"@) is Some,
        show_help: option_value(options, "help"@) is Some || option_value(options, "h"@) is Some,
        show_version: option_value(options, "version"@) is Some || option_value(options, "v"@)
            is Some,
    }
}

/// What a run is to do.
#[derive(Debug, Clone, Copy, PartialEq, Eq)]
pub enum Task {
    /// Show the usage text.
    Help,
    /// Show the version.
    Version,
    /// Render what comes in on standard input.
    StandardInput,
    /// Render the files, one after the other.
    Files,
}

/// What the arguments ask the run to do: help goes before the version, and
/// either before any input; without files the input is standard input.
pub open spec fn task_of(args: ArgsView) -> Task {
    if args.show_help {
        Task::Help
    } else if args.show_version {
        Task::Version
    } else if args.files.len() == 0 {
        Task::StandardInput
    } else {
        Task::Files
    }
}

/// The options as plain text.
pub open spec fn pairs_of(list: Seq<(String, String)>) -> Seq<(Seq<char>, Seq<char>)> {
    list.map_values(|pair: (String, String)| (pair.0@, pair.1@))
}

/// Whether `chars` is a flag.
fn starts_with_dash(chars: &Vec<char>) -> (out: bool)
    ensures
        out == is_flag(chars@),
{
    chars.len() > 0 && chars[0] == '-'
}

/// The name of the flag `chars`.
fn name_of_flag(chars: &Vec<char>) -> (out: String)
    ensures
        out@ == flag_name(chars@),
{
    let len = chars.len();
    let mut from: usize = 0;
    assert(chars@.skip(0) == chars@);
    while from < len && chars[from] == '-'
        invariant
            from <= len == chars.len(),
            flag_name(chars@) == flag_name(chars@.skip(from as int)),
        decreases len - from,
    {
        assert(chars@.skip(from as int).drop_first() == chars@.skip(from + 1));
        from += 1;
    }
    to_text(chars, from, len)
}

/// The value of the option `name`, if it was set.
fn find<'a>(options: &'a Vec<(String, String)>, name: &str) -> (out: Option<&'a String>)
    ensures
        text_of_ref(out) == option_value(pairs_of(options@), name@),
{
    let wanted = name.to_owned();
    let mut at: usize = options.len();
    assert(options@.take(at as int) == options@);
    while at > 0
        invariant
            at <= options.len(),
            wanted@ == name@,
            option_value(pairs_of(options@), name@) == option_value(
                pairs_of(options@.take(at as int)),
                name@,
            ),
        decreases at,
    {
        let ghost upto = pairs_of(options@.take(at as int));
        assert(upto.drop_last() == pairs_of(options@.take(at - 1)));
        if options[at - 1].0 == wanted {
            return Some(&options[at - 1].1);
        }
        at -= 1;
    }
    None
}

/// The text of an optional reference to a string.
pub open spec fn text_of_ref(value: Option<&String>) -> Option<Seq<char>> {
    match value {
        Some(s) => Some(s@),
        None => None,
    }
}

/// A copy of an optional string.
fn owned(value: Option<&String>) -> (out: Option<String>)
    ensures
        text_of(out) == text_of_ref(value),
{
    match value {
        Some(s) => Some(s.clone()),
        None => None,
    }
}

/// The colour that an option sets.
fn color_of(value: Option<&String>, default: RGB<u8>) -> (out: RGB<u8>)
    ensures
        out == color_or(text_of_ref(value), default),
{
    match value {
        Some(text) => match RGB::from_str(text.as_str()) {
            Ok(color) => color,
            Err(_) => default,
        },
        None => default,
    }
}

impl Default for Args {
    /// The arguments of a run without any.
    fn default() -> (out: Args)
        ensures
            out@ == default_args(),
    {
        let out = Args {
            files: Vec::new(),
            mode: GradientMode::Rainbow,
            frequency: None,
            spread: None,
            offset: None,
            start_color: RGB(255, 0, 0),
            end_color: RGB(0, 0, 255),
            no_color: false,
            show_help: false,
            show_version: false,
        };
        assert(out@.files == Seq::<Seq<char>>::empty());
        out
    }
}

impl Args {
    /// Reads the command-line arguments: `args` are those after the
    /// program's name, and `env_no_color` says whether the environment asks
    /// for no colour.
    pub fn parse(args: &Vec<String>, env_no_color: bool) -> (out: Args)
        ensures
            out@ == parsed_args(texts_of(args@), env_no_color),
    {
        let ghost all = texts_of(args@);
        let mut files: Vec<String> = Vec::new();
        let mut options: Vec<(String, String)> = Vec::new();
        let mut i: usize = 0;
        assert(all.skip(0) == all);
        while i < args.len()
            invariant
                i <= args.len(),
                all == texts_of(args@),
                pairs_of(options@) + scanned_options(all.skip(i as int)) == scanned_options(all),
                texts_of(files@) + scanned_files(all.skip(i as int)) == scanned_files(all),
            decreases args.len() - i,
        {
            let ghost rest = all.skip(i as int);
            let chars = to_chars(args[i].as_str());
            if starts_with_dash(&chars) {
                let name = name_of_flag(&chars);
                let has_value = i + 1 < args.len() && !starts_with_dash(
                    &to_chars(args[i + 1].as_str()),
                );
                if has_value {
                    options.push((name, args[i + 1].clone()));
                    assert(rest.skip(2) == all.skip(i + 2));
                    i += 2;
                } else {
                    options.push((name, "true".to_owned()));
                    assert(rest.skip(1) == all.skip(i + 1));
                    i += 1;
                }
            } else {
                files.push(args[i].clone());
                assert(rest.skip(1) == all.skip(i + 1));
                i += 1;
            }
        }
        let mode = match find(&options, "mode") {
            Some(name) => GradientMode::from(name),
            None => GradientMode::Rainbow,
        };
        let help = find(&options, "help").is_some() || find(&options, "h").is_some();
        let version = find(&options, "version").is_some() || find(&options, "v").is_some();
        Args {
            files,
            mode,
            frequency: owned(find(&options, "frequency")),
            spread: owned(find(&options, "spread")),
            offset: owned(find(&options, "offset")),
            start_color: color_of(find(&options, "start-color"), RGB(255, 0, 0)),
            end_color: color_of(find(&options, "end-color"), RGB(0, 0, 255)),
            no_color: env_no_color || find(&options, "no-color").is_some(),
            show_help: help,
            show_version: version,
        }
    }
}

impl Args {
    /// What the run is to do.
    pub fn task(&self) -> (out: Task)
        ensures
            out == task_of(self@),
    {
        if self.show_help {
            Task::Help
        } else if self.show_version {
            Task::Version
        } else if self.files.len() == 0 {
            Task::StandardInput
        } else {
            Task::Files
        }
    }

    /// What the renderer needs of these arguments.
    pub fn render_config(&self) -> (out: RenderConfig)
        ensures
            out.mode == self.mode,
            out.start_color == self.start_color,
            out.end_color == self.end_color,
            out.no_color == self.no_color,
    {
        RenderConfig {
            mode: self.mode,
            start_color: RGB(self.start_color.0, self.start_color.1, self.start_color.2),
            end_color: RGB(self.end_color.0, self.end_color.1, self.end_color.2),
            no_color: self.no_color,
        }
    }
}

/// Where an option is set again, the later value counts.
pub proof fn lemma_later_value_counts(
    options: Seq<(Seq<char>, Seq<char>)>,
    name: Seq<char>,
    value: Seq<char>,
    other: Seq<char>,
)
    requires
        other != name,
    ensures
        option_value(options.push((name, value)), name) == Some(value),
        option_value(options.push((other, value)), name) == option_value(options, name),
{
    assert(options.push((name, value)).last() == (name, value));
    assert(options.push((other, value)).drop_last() == options);
}

/// Without arguments, and with nothing in the environment against colour, a
/// run has the default settings.
pub proof fn lemma_no_arguments_give_the_defaults()
    ensures
        parsed_args(Seq::empty(), false) == default_args(),
{
    let none = Seq::<Seq<char>>::empty();
    assert(scanned_options(none) == Seq::<(Seq<char>, Seq<char>)>::empty());
    assert(scanned_files(none) == Seq::<Seq<char>>::empty());
}

} // verus!
