//! Command-line parsing for the `kapollo` and `kap` binaries.

use vstd::prelude::*;

verus! {

/// Options that configure a run of the TUI.
#[derive(Debug, Default, Clone, PartialEq, Eq)]
pub struct RunOpts {
    /// Shell to wrap, overriding the config and `$SHELL`.
    pub shell: Option<String>,
    /// Path of an alternate config file.
    pub config: Option<String>,
    /// Log verbosity, raised by each `-v`.
    pub verbose: u8,
}

/// A parsed command-line invocation.
#[derive(Debug, Clone, PartialEq, Eq)]
pub enum Cli {
    Run(RunOpts),
    Help,
    Version,
}

/// Why the command line was refused.
#[derive(Debug, Clone, PartialEq, Eq)]
pub enum CliError {
    /// A flag that takes a path came last (the flag's text).
    MissingValue(String),
    /// An argument kapollo does not know.
    Unknown(String),
}

/// The outcome of parsing `args[i..]` with `opts` collected so far.
pub open spec fn parse_from(args: Seq<Seq<char>>, i: int, opts: (Option<Seq<char>>, Option<Seq<char>>, u8)) -> Result<
    Option<(Option<Seq<char>>, Option<Seq<char>>, u8)>,
    (bool, Seq<char>),
>
    decreases args.len() - i,
{
    if i >= args.len() || i < 0 {
        Ok(Some(opts))
    } else {
        let a = args[i];
        if a == "-h"@ || a == "--help"@ {
            Ok(None)
        } else if a == "-V"@ || a == "--version"@ {
            Err((true, a))
        } else if a == "-v"@ || a == "--verbose"@ {
            parse_from(
                args,
                i + 1,
                (opts.0, opts.1, if opts.2 == 255 {
                    255u8
                } else {
                    (opts.2 + 1) as u8
                }),
            )
        } else if a == "--shell"@ {
            if i + 1 < args.len() {
                parse_from(args, i + 2, (Some(args[i + 1]), opts.1, opts.2))
            } else {
                Err((false, a))
            }
        } else if a == "--config"@ {
            if i + 1 < args.len() {
                parse_from(args, i + 2, (opts.0, Some(args[i + 1]), opts.2))
            } else {
                Err((false, a))
            }
        } else {
            Err((false, "unknown argument: "@ + a))
        }
    }
}

/// What [`parse_args`] answers for `args`: help or version as soon as their
/// flag comes (before any later error); a flag with its value missing; an
/// unknown argument; else the options, later values overriding earlier.
pub open spec fn parse_args_spec(args: Seq<Seq<char>>, r: Result<Cli, CliError>) -> bool {
    match parse_from(args, 0, (None, None, 0u8)) {
        Ok(Some(o)) => r matches Ok(Cli::Run(opts)) && opt_view(opts.shell) == o.0 && opt_view(
            opts.config,
        ) == o.1 && opts.verbose == o.2,
        Ok(None) => r == Ok::<Cli, CliError>(Cli::Help),
        Err((true, _)) => r == Ok::<Cli, CliError>(Cli::Version),
        Err((false, m)) => if m == "--shell"@ || m == "--config"@ {
            r matches Err(CliError::MissingValue(f)) && f@ == m
        } else {
            r matches Err(CliError::Unknown(u)) && "unknown argument: "@ + u@ == m
        },
    }
}

/// The view of an optional string.
pub open spec fn opt_view(o: Option<String>) -> Option<Seq<char>> {
    match o {
        Some(s) => Some(s@),
        None => None,
    }
}

/// The views of the arguments.
pub open spec fn args_view(args: Seq<String>) -> Seq<Seq<char>> {
    args.map_values(|a: String| a@)
}

/// Whether `a` spells `lit`.
fn is(a: &String, lit: &str) -> (b: bool)
    ensures
        b == (a@ == lit@),
{
    *a == crate::text::string_from_str(lit)
}

/// Parse the arguments after the program name.
pub fn parse_args(args: &[String]) -> (r: Result<Cli, CliError>)
    ensures
        parse_args_spec(args_view(args@), r),
{
    let ghost av = args_view(args@);
    let mut shell: Option<String> = None;
    let mut config: Option<String> = None;
    let mut verbose: u8 = 0;
    let mut i: usize = 0;
    while i < args.len()
        invariant
            i <= args@.len(),
            av == args_view(args@),
            parse_from(av, 0, (None, None, 0u8)) == parse_from(
                av,
                i as int,
                (opt_view(shell), opt_view(config), verbose),
            ),
        decreases args.len() - i,
    {
        let a = &args[i];
        assert(av[i as int] == a@);
        if is(a, "-h") || is(a, "--help") {
            return Ok(Cli::Help);
        } else if is(a, "-V") || is(a, "--version") {
            return Ok(Cli::Version);
        } else if is(a, "-v") || is(a, "--verbose") {
            verbose = if verbose == 255 { 255 } else { verbose + 1 };
            i = i + 1;
        } else if is(a, "--shell") {
            if i + 1 < args.len() {
                assert(av[i + 1] == args@[i + 1]@);
                shell = Some(args[i + 1].clone());
                i = i + 2;
            } else {
                return Err(CliError::MissingValue(a.clone()));
            }
        } else if is(a, "--config") {
            if i + 1 < args.len() {
                assert(av[i + 1] == args@[i + 1]@);
                config = Some(args[i + 1].clone());
                i = i + 2;
            } else {
                return Err(CliError::MissingValue(a.clone()));
            }
        } else {
            proof {
                reveal_strlit("-h");
                reveal_strlit("--help");
                reveal_strlit("-v");
                reveal_strlit("--verbose");
                reveal_strlit("unknown argument: ");
                reveal_strlit("--shell");
                reveal_strlit("--config");
                let m = "unknown argument: "@ + a@;
                assert(m.len() > 8);
                assert(m != "--shell"@ && m != "--config"@);
            }
            return Err(CliError::Unknown(a.clone()));
        }
    }
    Ok(Cli::Run(RunOpts { shell, config, verbose }))
}

impl CliError {
    /// The error's message.
    pub fn message(&self) -> (s: String)
        ensures
            s@ == match self {
                CliError::MissingValue(f) => f@ + " requires a path argument"@,
                CliError::Unknown(u) => "unknown argument: "@ + u@,
            },
    {
        match self {
            CliError::MissingValue(f) => {
                let mut s = f.clone();
                s.append(" requires a path argument");
                s
            },
            CliError::Unknown(u) => {
                let mut s = String::new();
                s.append("unknown argument: ");
                s.append(u.as_str());
                s
            },
        }
    }
}

/// The `--help` text for version `version`.
pub open spec fn help_spec(version: Seq<char>) -> Seq<char> {
    "kapollo "@ + version + " — split-pad shell REPL\n\nUSAGE:\n    kap [OPTIONS]\n    kapollo [OPTIONS]\n\nOPTIONS:\n    --shell <PATH>     Shell to wrap (overrides config and $SHELL)\n    --config <PATH>    Use an alternate config file\n    -v, --verbose      Raise log verbosity (repeatable)\n    -V, --version      Print version and exit\n    -h, --help         Print this help and exit"@
}

/// The `--help` text.
pub fn help_text(version: &str) -> (s: String)
    ensures
        s@ == help_spec(version@),
{
    let mut s = String::new();
    s.append("kapollo ");
    s.append(version);
    s.append(" — split-pad shell REPL\n\nUSAGE:\n    kap [OPTIONS]\n    kapollo [OPTIONS]\n\nOPTIONS:\n    --shell <PATH>     Shell to wrap (overrides config and $SHELL)\n    --config <PATH>    Use an alternate config file\n    -v, --verbose      Raise log verbosity (repeatable)\n    -V, --version      Print version and exit\n    -h, --help         Print this help and exit");
    s
}

} // verus!
