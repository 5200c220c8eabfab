//! The command line: `search:file <name>` or `search:folder <name>`, then flags.
use vstd::prelude::*;
use crate::decimal::{decimal_value, parse_usize};
use crate::entry::TargetKind;
use crate::names::same_text;
use crate::coordinator::Outcome;

verus! {

/// A search as the command line asks for it.
#[derive(Clone, Debug)]
pub struct Config {
    /// The kind searched for; `None` when the command is neither
    /// `search:file` nor `search:folder`, which finds nothing.
    pub kind: Option<TargetKind>,
    pub target: String,
    /// The root given by `--path`.
    pub path: Option<String>,
    pub global: bool,
    pub verbose: bool,
    pub quiet: bool,
    pub max_depth: usize,
    pub notify: bool,
    /// The worker count given by `--threads`; otherwise one per logical core.
    pub threads: Option<usize>,
    pub stop_after_match: bool,
}

/// What the command line asks for.
#[derive(Clone, Debug)]
pub enum Command {
    /// Print the help text.
    Help,
    /// Too few arguments: print the usage summary.
    Usage,
    Run(Config),
}

/// A command line that cannot be run.
#[derive(Clone, Debug, PartialEq, Eq)]
pub enum ArgError {
    MissingPath,
    MissingDepth,
    MissingThreads,
    BadDepth,
    BadThreads,
    /// A flag that is not known, as it was given.
    Unknown(String),
}

/// The kind that a command word asks for.
pub open spec fn kind_of_command(word: Seq<char>) -> Option<TargetKind> {
    if word == "search:file"@ {
        Some(TargetKind::File)
    } else if word == "search:folder"@ {
        Some(TargetKind::Directory)
    } else {
        None
    }
}

/// The search that a command word and a name ask for before any flag.
pub open spec fn base_config(word: String, target: String) -> Config {
    Config {
        kind: kind_of_command(word@),
        target,
        path: None,
        global: false,
        verbose: false,
        quiet: false,
        max_depth: usize::MAX,
        notify: false,
        threads: None,
        stop_after_match: false,
    }
}

/// The flags from position `i` on, applied in order to `c`.
pub open spec fn apply_flags(args: Seq<String>, i: int, c: Config) -> Result<Config, ArgError>
    decreases args.len() - i,
{
    if i < 0 || i >= args.len() {
        Ok(c)
    } else {
        let a = args[i]@;
        let has_value = i + 1 < args.len();
        if a == "--global"@ {
            apply_flags(args, i + 1, Config { global: true, ..c })
        } else if a == "--path"@ {
            if !has_value {
                Err(ArgError::MissingPath)
            } else {
                apply_flags(args, i + 2, Config { path: Some(args[i + 1]), ..c })
            }
        } else if a == "--verbose"@ {
            apply_flags(args, i + 1, Config { verbose: true, ..c })
        } else if a == "--quiet"@ {
            apply_flags(args, i + 1, Config { quiet: true, ..c })
        } else if a == "--depth"@ {
            if !has_value {
                Err(ArgError::MissingDepth)
            } else {
                match decimal_value(args[i + 1]@) {
                    Some(d) => apply_flags(args, i + 2, Config { max_depth: d, ..c }),
                    None => Err(ArgError::BadDepth),
                }
            }
        } else if a == "--notify"@ {
            apply_flags(args, i + 1, Config { notify: true, ..c })
        } else if a == "--threads"@ {
            if !has_value {
                Err(ArgError::MissingThreads)
            } else {
                match decimal_value(args[i + 1]@) {
                    Some(n) => apply_flags(args, i + 2, Config { threads: Some(n), ..c }),
                    None => Err(ArgError::BadThreads),
                }
            }
        } else if a == "--stop-after-match"@ {
            apply_flags(args, i + 1, Config { stop_after_match: true, ..c })
        } else {
            Err(ArgError::Unknown(args[i]))
        }
    }
}

/// What a whole command line asks for; `args[0]` is the program's name.
pub open spec fn command_of(args: Seq<String>) -> Result<Command, ArgError> {
    if args.len() <= 1 || args[1]@ == "--help"@ {
        Ok(Command::Help)
    } else if args.len() < 3 {
        Ok(Command::Usage)
    } else {
        match apply_flags(args, 3, base_config(args[1], args[2])) {
            Ok(c) => Ok(Command::Run(c)),
            Err(e) => Err(e),
        }
    }
}

/// The kind that a command word asks for.
pub fn command_kind(word: &str) -> (r: Option<TargetKind>)
    ensures
        r == kind_of_command(word@),
{
    if same_text(word, "search:file") {
        Some(TargetKind::File)
    } else if same_text(word, "search:folder") {
        Some(TargetKind::Directory)
    } else {
        None
    }
}

/// Reads the command line; `args[0]` is the program's name.
pub fn parse_args(args: &Vec<String>) -> (r: Result<Command, ArgError>)
    ensures
        r == command_of(args@),
{
    if args.len() <= 1 || same_text(args[1].as_str(), "--help") {
        return Ok(Command::Help);
    }
    if args.len() < 3 {
        return Ok(Command::Usage);
    }
    let mut c = Config {
        kind: command_kind(args[1].as_str()),
        target: args[2].clone(),
        path: None,
        global: false,
        verbose: false,
        quiet: false,
        max_depth: usize::MAX,
        notify: false,
        threads: None,
        stop_after_match: false,
    };
    let ghost start = c;
    assert(start == base_config(args@[1], args@[2]));
    let ghost run = match apply_flags(args@, 3, start) {
        Ok(c) => Ok(Command::Run(c)),
        Err(e) => Err(e),
    };
    assert(command_of(args@) == run);
    let mut i: usize = 3;
    while i < args.len()
        invariant
            3 <= i <= args.len(),
            command_of(args@) == run,
            run == match apply_flags(args@, 3, start) {
                Ok(c) => Ok(Command::Run(c)),
                Err(e) => Err(e),
            },
            apply_flags(args@, 3, start) == apply_flags(args@, i as int, c),
        decreases args.len() - i,
    {
        let a = args[i].as_str();
        let has_value = i + 1 < args.len();
        if same_text(a, "--global") {
            c.global = true;
            i = i + 1;
        } else if same_text(a, "--path") {
            if !has_value {
                return Err(ArgError::MissingPath);
            }
            c.path = Some(args[i + 1].clone());
            i = i + 2;
        } else if same_text(a, "--verbose") {
            c.verbose = true;
            i = i + 1;
        } else if same_text(a, "--quiet") {
            c.quiet = true;
            i = i + 1;
        } else if same_text(a, "--depth") {
            if !has_value {
                return Err(ArgError::MissingDepth);
            }
            match parse_usize(args[i + 1].as_str()) {
                Some(d) => {
                    c.max_depth = d;
                },
                None => {
                    return Err(ArgError::BadDepth);
                },
            }
            i = i + 2;
        } else if same_text(a, "--notify") {
            c.notify = true;
            i = i + 1;
        } else if same_text(a, "--threads") {
            if !has_value {
                return Err(ArgError::MissingThreads);
            }
            match parse_usize(args[i + 1].as_str()) {
                Some(n) => {
                    c.threads = Some(n);
                },
                None => {
                    return Err(ArgError::BadThreads);
                },
            }
            i = i + 2;
        } else if same_text(a, "--stop-after-match") {
            c.stop_after_match = true;
            i = i + 1;
        } else {
            return Err(ArgError::Unknown(args[i].clone()));
        }
    }
    Ok(Command::Run(c))
}

/// Relies on `num_cpus::get`: the number of logical cores this process may
/// use, which it documents to be at least one.
#[verifier::external_body]
fn logical_cores() -> (r: usize)
    ensures
        r >= 1,
{
    num_cpus::get()
}

/// Where a search starts.
#[derive(Clone, Debug)]
pub enum RootChoice {
    /// The directory given by `--path`.
    Given(String),
    /// The root of the system drive, for `--global`.
    SystemRoot,
    /// The current working directory.
    CurrentDir,
}

/// What is reported once a search has ended.
#[derive(PartialEq, Eq, Structural, Clone, Copy, Debug)]
pub struct ClosingPlan {
    /// Status lines are printed.
    pub print: bool,
    /// A desktop notification is requested.
    pub notify: bool,
    /// The hint towards `--verbose` follows a failed system-wide search.
    pub show_tip: bool,
}

impl Config {
    /// How many workers search: those asked for, else one per logical core.
    pub fn worker_count(&self) -> (r: usize)
        ensures
            self.threads matches Some(n) ==> r == n,
            self.threads is None ==> r >= 1,
    {
        match self.threads {
            Some(n) => n,
            None => logical_cores(),
        }
    }

    /// Where the search starts: a given path wins over `--global`.
    pub fn root_choice(&self) -> (r: RootChoice)
        ensures
            r == (match self.path {
                Some(p) => RootChoice::Given(p),
                None => if self.global {
                    RootChoice::SystemRoot
                } else {
                    RootChoice::CurrentDir
                },
            }),
    {
        match &self.path {
            Some(p) => RootChoice::Given(p.clone()),
            None => if self.global {
                RootChoice::SystemRoot
            } else {
                RootChoice::CurrentDir
            },
        }
    }

    /// What to report of `outcome`: nothing is printed under `--quiet`, a
    /// notification goes out only for a match under `--notify`, and the hint
    /// follows only a system-wide search that found nothing and was neither
    /// cancelled nor verbose.
    pub fn closing_plan(&self, outcome: &Outcome) -> (r: ClosingPlan)
        ensures
            r.print == !self.quiet,
            r.notify == (self.notify && *outcome is Found),
            r.show_tip == (*outcome is NotFound && !self.quiet && !self.verbose && self.global),
    {
        let found = outcome.is_found();
        let not_found = match outcome {
            Outcome::NotFound => true,
            _ => false,
        };
        ClosingPlan {
            print: !self.quiet,
            notify: self.notify && found,
            show_tip: not_found && !self.quiet && !self.verbose && self.global,
        }
    }

    /// The noun for what is searched: a folder unless files were asked for.
    pub fn kind_word(&self) -> (r: &'static str)
        ensures
            r@ == (if self.kind == Some(TargetKind::File) {
                "file"@
            } else {
                "folder"@
            }),
    {
        match self.kind {
            Some(TargetKind::File) => "file",
            _ => "folder",
        }
    }
}

/// The text of each refusal of the command line.
pub open spec fn arg_error_text(e: ArgError) -> Seq<char> {
    match e {
        ArgError::MissingPath => "Argument error: Missing path after --path"@,
        ArgError::MissingDepth => "Argument error: Missing depth value after --depth"@,
        ArgError::MissingThreads => "Argument error: Missing thread count after --threads"@,
        ArgError::BadDepth => "Parse error: Depth must be a number"@,
        ArgError::BadThreads => "Parse error: Thread count must be a number"@,
        ArgError::Unknown(a) => "Argument error: Unknown argument: "@ + a@,
    }
}

impl ArgError {
    /// The message that tells the user what is wrong.
    pub fn message(&self) -> (r: String)
        ensures
            r@ == arg_error_text(*self),
    {
        match self {
            ArgError::MissingPath => String::from_str("Argument error: Missing path after --path"),
            ArgError::MissingDepth => String::from_str(
                "Argument error: Missing depth value after --depth",
            ),
            ArgError::MissingThreads => String::from_str(
                "Argument error: Missing thread count after --threads",
            ),
            ArgError::BadDepth => String::from_str("Parse error: Depth must be a number"),
            ArgError::BadThreads => String::from_str("Parse error: Thread count must be a number"),
            ArgError::Unknown(a) => String::from_str("Argument error: Unknown argument: ").concat(
                a.as_str(),
            ),
        }
    }
}

} // verus!
