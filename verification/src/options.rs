//! The options that the command line gives to the generator.
//!
//! The command line is taken apart by the `getopts` crate. What is found on
//! it becomes the options of a run here.

use crate::text::opt_text;
use vstd::prelude::*;
use vstd::string::StringExecFns;

verus! {

/// The error of the `getopts` crate for a command line that does not fit
/// the options.
#[verifier::external_type_specification]
#[verifier::external_body]
pub struct ExFail(getopts::Fail);

/// How much of what happens is logged.
#[derive(Debug, Clone, Copy, PartialEq, Eq, Structural)]
pub enum LogLevel {
    Debug,
    Info,
    Warn,
    Error,
}

/// What can be wrong with a command line.
#[derive(Debug)]
pub enum OptionsError {
    /// An option has an argument that it cannot have; carries the argument.
    InvalidArgument(String),
    /// The command line does not fit the options.
    GetoptFail(getopts::Fail),
}

/// Where the files of a pokeemerald expansion project are.
#[derive(Debug)]
pub struct ExpansionOptions {
    pub project_path: String,
    pub trainers_party_file_path: String,
}

impl ExpansionOptions {
    /// The path of the project where the command line names none.
    pub open spec fn default_project_path() -> Seq<char> {
        "pokeemerald-expansion"@
    }

    /// The path of the party file within the project.
    pub open spec fn default_party_file_path() -> Seq<char> {
        "/src/data/trainers.party"@
    }
}

impl Default for ExpansionOptions {
    fn default() -> (r: Self)
        ensures
            r.project_path@ == ExpansionOptions::default_project_path(),
            r.trainers_party_file_path@ == ExpansionOptions::default_party_file_path(),
    {
        ExpansionOptions {
            project_path: String::from_str("pokeemerald-expansion"),
            trainers_party_file_path: String::from_str("/src/data/trainers.party"),
        }
    }
}

/// The options of the project that the generator works on, by the kind of
/// the project.
#[derive(Debug)]
pub enum BaseProjectOptions {
    Expansion(ExpansionOptions),
}

impl BaseProjectOptions {
    /// The options are those of an expansion project at the given path, with
    /// the party file at its usual place.
    pub open spec fn is_expansion_at(self, path: Seq<char>) -> bool {
        match self {
            BaseProjectOptions::Expansion(e) => e.project_path@ == path
                && e.trainers_party_file_path@ == ExpansionOptions::default_party_file_path(),
        }
    }
}

impl Default for BaseProjectOptions {
    fn default() -> (r: Self)
        ensures
            r.is_expansion_at(ExpansionOptions::default_project_path()),
    {
        BaseProjectOptions::Expansion(ExpansionOptions::default())
    }
}

/// The options of a run.
#[derive(Debug)]
pub struct Options {
    pub project_options: BaseProjectOptions,
    pub log_level: Option<LogLevel>,
    pub log_file: Option<String>,
    pub print_usage: bool,
}

impl Default for Options {
    fn default() -> (r: Self)
        ensures
            r.project_options.is_expansion_at(ExpansionOptions::default_project_path()),
            r.log_level is None,
            r.log_file is None,
            !r.print_usage,
    {
        Options {
            project_options: BaseProjectOptions::default(),
            log_level: None,
            log_file: None,
            print_usage: false,
        }
    }
}

/// What is found on a command line: the argument of each option that is
/// there, and whether help is asked for.
#[derive(Debug)]
pub struct Arguments {
    pub project: Option<String>,
    pub log_level: Option<String>,
    pub log_file: Option<String>,
    pub help: bool,
}

/// What [`Arguments`] hold, as mathematical values.
pub ghost struct ArgumentsView {
    pub project: Option<Seq<char>>,
    pub log_level: Option<Seq<char>>,
    pub log_file: Option<Seq<char>>,
    pub help: bool,
}

impl View for Arguments {
    type V = ArgumentsView;

    open spec fn view(&self) -> ArgumentsView {
        ArgumentsView {
            project: opt_text(self.project),
            log_level: opt_text(self.log_level),
            log_file: opt_text(self.log_file),
            help: self.help,
        }
    }
}

/// The texts of the words of a command line.
pub open spec fn words_of(args: Seq<String>) -> Seq<Seq<char>> {
    args.map_values(|a: String| a@)
}

/// What `Options::parse` of the `getopts` crate finds on a command line
/// behind its first word, with the options `-P`/`--project`,
/// `-L`/`--log-level` and `--log-file`, which take an argument, and the flag
/// `-h`/`--help`: what `Matches::opt_str` gives for the three options and
/// `Matches::opt_present` for the flag, or `None` where the command line
/// does not fit.
pub uninterp spec fn arguments_of(words: Seq<Seq<char>>) -> Option<ArgumentsView>;

/// What `str::to_lowercase` of std makes of a text.
pub uninterp spec fn lowercase_of(text: Seq<char>) -> Seq<char>;

/// Makes the options of the generator with `getopts::Options::new`,
/// `optopt` and `optflag`, calls `Options::parse` on the words behind the
/// first, and asks the matches for each option with `Matches::opt_str` and
/// `Matches::opt_present`. The claim is that the outcome depends on the
/// words alone, so that it has a name; nothing is claimed about what is
/// found on which command line.
#[verifier::external_body]
fn read_arguments(args: &Vec<String>) -> (r: Result<Arguments, getopts::Fail>)
    ensures
        match r {
            Ok(a) => arguments_of(words_of(args@)) == Some(a@),
            Err(_) => arguments_of(words_of(args@)) is None,
        },
{
    let mut opts = getopts::Options::new();
    opts.optopt("P", "project", "Specify base decomp project path", "PATH");
    opts.optopt("L", "log-level", "Secify log level (DEBUG, INFO, WARN, ERROR)", "LEVEL");
    opts.optopt("", "log-file", "Specify log file path", "PATH");
    opts.optflag("h", "help", "Print usage");
    let matches = opts.parse(args.iter().skip(1))?;
    Ok(
        Arguments {
            project: matches.opt_str("project"),
            log_level: matches.opt_str("log-level"),
            log_file: matches.opt_str("log-file"),
            help: matches.opt_present("help"),
        },
    )
}

/// What `Options::usage` of the `getopts` crate makes of the options of
/// the generator, with a first line that names the program.
pub uninterp spec fn usage_of(program: Seq<char>) -> Seq<char>;

/// Makes the options of the generator as [`read_arguments`] does and calls
/// `Options::usage` with a first line that names the program. The text only
/// has a name.
#[verifier::external_body]
fn usage(program: &str) -> (r: String)
    ensures
        r@ == usage_of(program@),
{
    let mut opts = getopts::Options::new();
    opts.optopt("P", "project", "Specify base decomp project path", "PATH");
    opts.optopt("L", "log-level", "Secify log level (DEBUG, INFO, WARN, ERROR)", "LEVEL");
    opts.optopt("", "log-file", "Specify log file path", "PATH");
    opts.optflag("h", "help", "Print usage");
    opts.usage(&format!("{}: Nuzlocke Generator Engine", program))
}

/// Calls `str::to_lowercase` of std. Nothing is claimed about the letters:
/// the outcome only has a name.
#[verifier::external_body]
fn lowercase(text: &str) -> (r: String)
    ensures
        r@ == lowercase_of(text@),
{
    text.to_lowercase()
}

/// The level that a name in small letters stands for.
pub open spec fn level_named(name: Seq<char>) -> Option<LogLevel> {
    if name == "debug"@ {
        Some(LogLevel::Debug)
    } else if name == "info"@ {
        Some(LogLevel::Info)
    } else if name == "warn"@ {
        Some(LogLevel::Warn)
    } else if name == "error"@ {
        Some(LogLevel::Error)
    } else {
        None
    }
}

/// The level that the argument of the log level option asks for: none
/// without the option, else the level that the argument names, in small or
/// capital letters. An argument that names no level is handed back.
pub open spec fn level_of(argument: Option<Seq<char>>) -> Result<Option<LogLevel>, Seq<char>> {
    match argument {
        None => Ok(None),
        Some(text) => match level_named(lowercase_of(text)) {
            Some(level) => Ok(Some(level)),
            None => Err(text),
        },
    }
}

/// The options `o` are what the arguments `a` ask for, with the log level
/// `level`: the project at the path that is named, or at the usual one, the
/// log file that is named, and help if it is asked for.
pub open spec fn options_match(o: Options, a: ArgumentsView, level: Option<LogLevel>) -> bool {
    &&& o.project_options.is_expansion_at(
        match a.project {
            Some(path) => path,
            None => ExpansionOptions::default_project_path(),
        },
    )
    &&& o.log_level == level
    &&& opt_text(o.log_file) == a.log_file
    &&& o.print_usage == a.help
}

/// What is made of the arguments of a command line: the options that they
/// ask for, or the argument that names no log level.
pub open spec fn options_asked(r: Result<Options, OptionsError>, a: ArgumentsView) -> bool {
    match level_of(a.log_level) {
        Ok(level) => r matches Ok(o) && options_match(o, a, level),
        Err(text) => r matches Err(OptionsError::InvalidArgument(t)) && t@ == text,
    }
}

/// Tells which level a name in small letters stands for.
pub fn log_level_named(name: &str) -> (r: Option<LogLevel>)
    ensures
        r == level_named(name@),
{
    let name = String::from_str(name);
    if name == String::from_str("debug") {
        Some(LogLevel::Debug)
    } else if name == String::from_str("info") {
        Some(LogLevel::Info)
    } else if name == String::from_str("warn") {
        Some(LogLevel::Warn)
    } else if name == String::from_str("error") {
        Some(LogLevel::Error)
    } else {
        None
    }
}

/// Makes the options that the arguments of a command line ask for.
pub fn options_from_arguments(arguments: &Arguments) -> (r: Result<Options, OptionsError>)
    ensures
        options_asked(r, arguments@),
{
    let log_level = match &arguments.log_level {
        None => None,
        Some(text) => {
            let lowered = lowercase(text.as_str());
            match log_level_named(lowered.as_str()) {
                Some(level) => Some(level),
                None => {
                    return Err(OptionsError::InvalidArgument(text.clone()));
                },
            }
        },
    };
    let mut project_options = ExpansionOptions::default();
    if let Some(path) = &arguments.project {
        project_options.project_path = path.clone();
    }
    let log_file = match &arguments.log_file {
        Some(path) => Some(path.clone()),
        None => None,
    };
    Ok(
        Options {
            project_options: BaseProjectOptions::Expansion(project_options),
            log_level,
            log_file,
            print_usage: arguments.help,
        },
    )
}

/// Makes the options of a run from the words of its command line, of which
/// the first is the name of the program. A command line that does not fit
/// the options is refused with the error of `getopts`.
pub fn parse_options_inner(args: &Vec<String>) -> (r: Result<Options, OptionsError>)
    ensures
        match arguments_of(words_of(args@)) {
            Some(a) => options_asked(r, a),
            None => r matches Err(OptionsError::GetoptFail(_)),
        },
{
    match read_arguments(args) {
        Ok(arguments) => options_from_arguments(&arguments),
        Err(e) => Err(OptionsError::GetoptFail(e)),
    }
}

/// The text that explains the options to the user of the program.
pub fn usage_text(program: &str) -> (r: String)
    ensures
        r@ == usage_of(program@),
{
    usage(program)
}

} // verus!
