//! The command line.
use vstd::prelude::*;

use crate::about::Package;
use crate::app::health::{DEFAULT_SAMPLING_INTERVAL, SAMPLING_PRESETS};
use crate::text;
use crate::text::{same_text, strip_prefix};
use crate::time::Nanos;

verus! {

broadcast use vstd::string::group_string_axioms;

pub const USAGE: &'static str = "Usage: tuxctl [--interval <DURATION>]  (see --help)";

/// What the command line asks for.
#[derive(Debug, Clone, Copy, PartialEq, Eq, Structural)]
pub enum Command {
    Run { interval: Nanos },
    Help,
    Version,
}

/// The interval of the first preset from `from` on with a name.
pub open spec fn named_preset(name: Seq<char>, from: int) -> Option<Nanos>
    decreases 8 - from,
{
    if from >= 8 {
        None
    } else if SAMPLING_PRESETS[from].0@ == name {
        Some(SAMPLING_PRESETS[from].1)
    } else {
        named_preset(name, from + 1)
    }
}

/// The names of the first `count` presets, with a space between any two.
pub open spec fn presets_text(count: int) -> Seq<char>
    decreases count,
{
    if count <= 0 {
        Seq::empty()
    } else if count == 1 {
        SAMPLING_PRESETS[0].0@
    } else {
        presets_text(count - 1) + " "@ + SAMPLING_PRESETS[count - 1].0@
    }
}

fn preset_names() -> (names: String)
    ensures
        names@ == presets_text(8),
{
    let mut names = String::from_str(SAMPLING_PRESETS[0].0);
    let mut i: usize = 1;
    while i < 8
        invariant
            1 <= i <= 8,
            names@ == presets_text(i as int),
        decreases 8 - i,
    {
        names.append(" ");
        names.append(SAMPLING_PRESETS[i].0);
        i += 1;
    }
    names
}

/// The complaint about an interval that is no preset. It lists those there are.
pub open spec fn interval_complaint(value: Seq<char>) -> Seq<char> {
    "invalid interval '"@ + value + "' (expected one of: "@ + presets_text(8) + ")"@
}

/// What the arguments from `from` on ask for, where an interval was chosen already. The first
/// complaint, or the first request for help or the version, decides.
pub open spec fn asked_for(args: Seq<Seq<char>>, from: int, interval: Nanos) -> Result<
    Command,
    Seq<char>,
>
    decreases args.len() - from,
{
    if from >= args.len() {
        Ok(Command::Run { interval })
    } else if args[from] == "-h"@ || args[from] == "--help"@ {
        Ok(Command::Help)
    } else if args[from] == "-V"@ || args[from] == "--version"@ {
        Ok(Command::Version)
    } else if args[from] == "--interval"@ {
        if from + 1 >= args.len() {
            Err("--interval requires a value"@)
        } else {
            match named_preset(args[from + 1], 0) {
                Some(chosen) => asked_for(args, from + 2, chosen),
                None => Err(interval_complaint(args[from + 1])),
            }
        }
    } else {
        match text::without_prefix(args[from], "--interval="@) {
            Some(value) => match named_preset(value, 0) {
                Some(chosen) => asked_for(args, from + 1, chosen),
                None => Err(interval_complaint(value)),
            },
            None => Err("unexpected argument '"@ + args[from] + "'"@),
        }
    }
}

/// A command, or a complaint in words.
pub open spec fn command_view(result: Result<Command, String>) -> Result<Command, Seq<char>> {
    match result {
        Ok(command) => Ok(command),
        Err(message) => Err(message@),
    }
}

pub fn parse_interval(value: &str) -> (interval: Result<Nanos, String>)
    ensures
        match interval {
            Ok(interval) => named_preset(value@, 0) == Some(interval),
            Err(message) => named_preset(value@, 0) is None && message@ == interval_complaint(
                value@,
            ),
        },
{
    let mut i: usize = 0;
    while i < 8
        invariant
            i <= 8,
            named_preset(value@, 0) == named_preset(value@, i as int),
        decreases 8 - i,
    {
        if same_text(SAMPLING_PRESETS[i].0, value) {
            return Ok(SAMPLING_PRESETS[i].1);
        }
        i += 1;
    }
    let mut message = String::from_str("invalid interval '");
    message.append(value);
    message.append("' (expected one of: ");
    message.append(preset_names().as_str());
    message.append(")");
    Err(message)
}

/// To ask for help, or for the version, wins over whatever comes behind it.
pub proof fn lemma_help_and_version_win(
    args: Seq<Seq<char>>,
    rest: Seq<Seq<char>>,
    from: int,
    interval: Nanos,
)
    requires
        0 <= from < args.len(),
        asked_for(args, from, interval) == Ok::<Command, Seq<char>>(Command::Help) || asked_for(
            args,
            from,
            interval,
        ) == Ok::<Command, Seq<char>>(Command::Version),
    ensures
        asked_for(args + rest, from, interval) == asked_for(args, from, interval),
    decreases args.len() - from,
{
    let longer = args + rest;
    assert(longer[from] == args[from]);
    if args[from] == "-h"@ || args[from] == "--help"@ || args[from] == "-V"@ || args[from]
        == "--version"@ {
    } else if args[from] == "--interval"@ {
        assert(longer[from + 1] == args[from + 1]);
        let chosen = named_preset(args[from + 1], 0)->0;
        if from + 2 < args.len() {
            lemma_help_and_version_win(args, rest, from + 2, chosen);
        } else {
            assert(asked_for(args, from + 2, chosen) is Ok);
        }
    } else {
        let value = text::without_prefix(args[from], "--interval="@)->0;
        let chosen = named_preset(value, 0)->0;
        if from + 1 < args.len() {
            lemma_help_and_version_win(args, rest, from + 1, chosen);
        } else {
            assert(asked_for(args, from + 1, chosen) is Ok);
        }
    }
}

/// What the arguments after the name of the program ask for.
pub fn parse(args: &Vec<String>) -> (command: Result<Command, String>)
    ensures
        command_view(command) == asked_for(text::views(args@), 0, DEFAULT_SAMPLING_INTERVAL),
{
    let ghost all = text::views(args@);
    let mut interval: Nanos = DEFAULT_SAMPLING_INTERVAL;
    let mut i: usize = 0;
    while i < args.len()
        invariant
            i <= args@.len(),
            all == text::views(args@),
            asked_for(all, 0, DEFAULT_SAMPLING_INTERVAL) == asked_for(all, i as int, interval),
        decreases args@.len() - i,
    {
        assert(all[i as int] == args@[i as int]@);
        let arg = args[i].as_str();
        if same_text(arg, "-h") || same_text(arg, "--help") {
            return Ok(Command::Help);
        }
        if same_text(arg, "-V") || same_text(arg, "--version") {
            return Ok(Command::Version);
        }
        if same_text(arg, "--interval") {
            i += 1;
            if i >= args.len() {
                return Err(String::from_str("--interval requires a value"));
            }
            assert(all[i as int] == args@[i as int]@);
            match parse_interval(args[i].as_str()) {
                Ok(chosen) => {
                    interval = chosen;
                },
                Err(message) => {
                    return Err(message);
                },
            }
        } else {
            match strip_prefix(arg, "--interval=") {
                Some(value) => match parse_interval(value.as_str()) {
                    Ok(chosen) => {
                        interval = chosen;
                    },
                    Err(message) => {
                        return Err(message);
                    },
                },
                None => {
                    let mut message = String::from_str("unexpected argument '");
                    message.append(arg);
                    message.append("'");
                    return Err(message);
                },
            }
        }
        i += 1;
    }
    Ok(Command::Run { interval })
}

/// Every interval that the command line accepts is a preset.
pub proof fn lemma_accepted_interval_is_a_preset(name: Seq<char>, from: int)
    requires
        0 <= from,
        named_preset(name, from) is Some,
    ensures
        exists|place: int|
            from <= place < 8 && SAMPLING_PRESETS[place].0@ == name && #[trigger] SAMPLING_PRESETS[place].1
                == named_preset(name, from)->0,
    decreases 8 - from,
{
    if SAMPLING_PRESETS[from].0@ != name {
        lemma_accepted_interval_is_a_preset(name, from + 1);
        let place = choose|place: int|
            from + 1 <= place < 8 && SAMPLING_PRESETS[place].0@ == name && #[trigger] SAMPLING_PRESETS[place].1
                == named_preset(name, from + 1)->0;
        assert(SAMPLING_PRESETS[place].1 == named_preset(name, from)->0);
    } else {
        assert(SAMPLING_PRESETS[from].1 == named_preset(name, from)->0);
    }
}

/// The name of the program and its version.
pub fn version_text(package: &Package) -> (text: String)
    ensures
        text@ == package.name@ + " "@ + package.version@,
{
    let mut text = package.name.clone();
    text.append(" ");
    text.append(package.version.as_str());
    text
}

/// The help that is printed.
pub open spec fn help_view(package: Package) -> Seq<char> {
    package.name@ + " "@ + package.version@ + " - "@ + package.description@ + "\n\nUsage: "@
        + package.name@
        + " [OPTIONS]\n\nOptions:\n      --interval <DURATION>  Sampling interval for CPU, memory and network (default: 1s)\n                             One of: "@
        + presets_text(8)
        + "\n                             Processes refresh at most once per second, services every 5s.\n                             Press + / - inside "@
        + package.name@
        + " to change it while running.\n  -h, --help                 Print help\n  -V, --version              Print version\n\nPress ? inside "@
        + package.name@ + " for key bindings.\nLicense: "@ + package.license@ + "   Source: "@
        + package.repository@ + "\n"@
}

pub fn help_text(package: &Package) -> (text: String)
    ensures
        text@ == help_view(*package),
{
    let name = package.name.as_str();
    let mut text = package.name.clone();
    text.append(" ");
    text.append(package.version.as_str());
    text.append(" - ");
    text.append(package.description.as_str());
    text.append("\n\nUsage: ");
    text.append(name);
    text.append(
        " [OPTIONS]\n\nOptions:\n      --interval <DURATION>  Sampling interval for CPU, memory and network (default: 1s)\n                             One of: ",
    );
    text.append(preset_names().as_str());
    text.append(
        "\n                             Processes refresh at most once per second, services every 5s.\n                             Press + / - inside ",
    );
    text.append(name);
    text.append(
        " to change it while running.\n  -h, --help                 Print help\n  -V, --version              Print version\n\nPress ? inside ",
    );
    text.append(name);
    text.append(" for key bindings.\nLicense: ");
    text.append(package.license.as_str());
    text.append("   Source: ");
    text.append(package.repository.as_str());
    text.append("\n");
    text
}

} // verus!
