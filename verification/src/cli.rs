//! The command line.

use vstd::prelude::*;
use vstd::string::*;

use crate::text::text_eq;

verus! {

/// What the command line asks for.
pub enum Invocation {
    /// Print the version.
    Version,
    /// Print the help text.
    Help,
    /// Refuse it, with this message.
    Refused(String),
    /// Run, with these settings.
    Run { config: Option<String>, spawn: Option<String> },
}

/// What an `Invocation` says.
pub enum InvocationView {
    Version,
    Help,
    Refused(Seq<char>),
    Run { config: Option<Seq<char>>, spawn: Option<Seq<char>> },
}

impl View for Invocation {
    type V = InvocationView;

    open spec fn view(&self) -> InvocationView {
        match self {
            Invocation::Version => InvocationView::Version,
            Invocation::Help => InvocationView::Help,
            Invocation::Refused(m) => InvocationView::Refused(m@),
            Invocation::Run { config, spawn } => InvocationView::Run {
                config: crate::session::text_opt(*config),
                spawn: crate::session::text_opt(*spawn),
            },
        }
    }
}

/// What the arguments ask for, given the settings that came before them. They are
/// read from left to right; of a setting given twice the later one counts.
pub open spec fn invoked(
    args: Seq<Seq<char>>,
    config: Option<Seq<char>>,
    spawn: Option<Seq<char>>,
) -> InvocationView
    decreases args.len(),
{
    if args.len() == 0 {
        InvocationView::Run { config, spawn }
    } else if args[0] == "-v"@ || args[0] == "--version"@ {
        InvocationView::Version
    } else if args[0] == "-h"@ || args[0] == "--help"@ {
        InvocationView::Help
    } else if args[0] == "-c"@ || args[0] == "--config"@ {
        if args.len() == 1 {
            InvocationView::Refused("--config requires a path argument"@)
        } else {
            invoked(args.skip(2), Some(args[1]), spawn)
        }
    } else if args[0] == "-s"@ || args[0] == "--spawn"@ {
        if args.len() == 1 {
            InvocationView::Refused("--spawn requires a command argument"@)
        } else {
            invoked(args.skip(2), config, Some(args[1]))
        }
    } else {
        InvocationView::Refused("unrecognized argument '"@ + args[0] + "' (see --help)"@)
    }
}

/// Reads the arguments that follow the program's name.
pub fn parse_args(args: &Vec<String>) -> (r: Invocation)
    ensures
        r@ == invoked(crate::text::texts(args@), None, None),
{
    let mut config: Option<String> = None;
    let mut spawn: Option<String> = None;
    let mut i: usize = 0;
    let total: usize = args.len();
    let ghost all = crate::text::texts(args@);
    assert(all.skip(0) =~= all);
    while i < total
        invariant
            total == args@.len(),
            i <= total,
            all == crate::text::texts(args@),
            invoked(
                all.skip(i as int),
                crate::session::text_opt(config),
                crate::session::text_opt(spawn),
            ) == invoked(all, None, None),
        decreases total - i,
    {
        let arg: &str = args[i].as_str();
        let ghost rest = all.skip(i as int);
        assert(rest[0] == arg@);
        if text_eq(arg, "-v") || text_eq(arg, "--version") {
            return Invocation::Version;
        }
        if text_eq(arg, "-h") || text_eq(arg, "--help") {
            return Invocation::Help;
        }
        let is_config = text_eq(arg, "-c") || text_eq(arg, "--config");
        let is_spawn = text_eq(arg, "-s") || text_eq(arg, "--spawn");
        if is_config || is_spawn {
            if i + 1 == total {
                return Invocation::Refused(
                    if is_config {
                        "--config requires a path argument".to_owned()
                    } else {
                        "--spawn requires a command argument".to_owned()
                    },
                );
            }
            let value: String = args[i + 1].clone();
            assert(rest[1] == value@);
            assert(rest.skip(2) =~= all.skip(i + 2));
            if is_config {
                config = Some(value);
            } else {
                spawn = Some(value);
            }
            i += 2;
        } else {
            let mut message: String = "unrecognized argument '".to_owned();
            message.append(arg);
            message.append("' (see --help)");
            return Invocation::Refused(message);
        }
    }
    Invocation::Run { config, spawn }
}

/// The lines of the help text.
pub open spec fn help_lines(version: Seq<char>) -> Seq<Seq<char>> {
    seq![
        "TideWM "@ + version + " -- a water-styled Wayland compositor"@,
        ""@,
        "USAGE:"@,
        "    tidewm [OPTIONS]"@,
        ""@,
        "OPTIONS:"@,
        "    -c, --config <path>    Use this config file instead of the default"@,
        "    -s, --spawn <command>  Spawn one specific command at launch (no shell parsing)"@,
        "    -v, --version          Print version and exit"@,
        "    -h, --help             Print this help and exit"@,
    ]
}

/// The help text.
pub fn help_text(version: &str) -> (r: String)
    ensures
        r@ == crate::text::joined(help_lines(version@), "\n"@),
{
    let mut lines: Vec<String> = Vec::new();
    let mut title: String = "TideWM ".to_owned();
    title.append(version);
    title.append(" -- a water-styled Wayland compositor");
    lines.push(title);
    lines.push("".to_owned());
    lines.push("USAGE:".to_owned());
    lines.push("    tidewm [OPTIONS]".to_owned());
    lines.push("".to_owned());
    lines.push("OPTIONS:".to_owned());
    lines.push("    -c, --config <path>    Use this config file instead of the default".to_owned());
    lines.push(
        "    -s, --spawn <command>  Spawn one specific command at launch (no shell parsing)".to_owned(),
    );
    lines.push("    -v, --version          Print version and exit".to_owned());
    lines.push("    -h, --help             Print this help and exit".to_owned());
    assert(crate::text::texts(lines@) =~= help_lines(version@));
    crate::text::join(&lines, "\n")
}

} // verus!
