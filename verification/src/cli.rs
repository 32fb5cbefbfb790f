//! The command line: its arguments, and what each inspection command
//! prints.
use vstd::prelude::*;
use crate::config::OutputFormat;
use crate::text::{append_str, chars_of, owned, string_of_range};
use crate::vars::{entries_str_map, StrMap};

verus! {

/// The configuration file read when none is given.
pub const DEFAULT_CONFIG_FILE: &'static str = "pinch.yaml";

/// Shells for which completions are generated.
#[derive(Debug, Clone, Copy, PartialEq, Eq, Structural)]
pub enum Shell {
    Bash,
    Zsh,
    Fish,
}

/// `pinch processes ...`
#[derive(Debug)]
#[allow(inconsistent_fields)]
pub enum ProcessesSubcommand {
    /// Run a process directly in the foreground or background.
    Run { title: String, background: bool },
    /// Show the command of a process (or of all).
    Show { title: Option<String>, format: Option<OutputFormat> },
    /// List the process titles.
    Ls { format: Option<OutputFormat> },
}

/// `pinch networks ...`
#[derive(Debug)]
pub enum NetworksSubcommand {
    /// List the Docker networks of the configuration.
    Ls { format: Option<OutputFormat> },
    /// Show the `docker network create` command of a network (or of all).
    Show { name: Option<String>, format: Option<OutputFormat> },
    /// Create a network (or all).
    Create { name: Option<String> },
}

/// `pinch containers ...`
#[derive(Debug)]
pub enum ContainerSubcommand {
    /// List the container images the processes use.
    Ls { format: Option<OutputFormat> },
}

/// `pinch project ...`
#[derive(Debug)]
pub enum ProjectSubcommand {
    /// Show the project metadata.
    Show { format: Option<OutputFormat> },
}

/// `pinch configuration ...`
#[derive(Debug)]
pub enum ConfigurationSubcommand {
    /// Write a default configuration file.
    Init,
    /// Show the prepared configuration.
    Show { format: Option<OutputFormat> },
    /// Show the resolved variables (or one).
    Var { name: Option<String>, format: Option<OutputFormat> },
}

/// The subcommands.
#[derive(Debug)]
#[allow(inconsistent_fields)]
pub enum Commands {
    Tui,
    Processes { command: ProcessesSubcommand },
    Networks { command: NetworksSubcommand },
    Containers { command: ContainerSubcommand },
    Project { command: ProjectSubcommand },
    Configuration { command: ConfigurationSubcommand },
    Audit { format: Option<OutputFormat> },
    Completion { shell: Shell },
}

/// The command line as given.
#[derive(Debug)]
pub struct Cli {
    /// Path of the configuration file (`-` for standard input).
    pub config_file: String,
    /// `key:value` variable overrides, in order.
    pub overrides: Vec<(String, String)>,
    /// The subcommand, if any.
    pub command: Option<Commands>,
}

/// What to do with processes.
#[derive(Debug)]
#[allow(inconsistent_fields)]
pub enum ProcessCommand {
    Ls { format: Option<OutputFormat> },
    Show { title: Option<String>, format: Option<OutputFormat> },
    Run { title: String, background: bool },
}

/// What to do with networks.
#[derive(Debug)]
pub enum NetCommand {
    Ls { format: Option<OutputFormat> },
    Show { name: Option<String>, format: Option<OutputFormat> },
    Create { name: Option<String> },
}

/// What to do with containers.
#[derive(Debug)]
pub enum ContainerCommand {
    Ls { format: Option<OutputFormat> },
}

/// What to do with the project metadata.
#[derive(Debug)]
pub enum ProjectCommand {
    Show { format: Option<OutputFormat> },
}

/// What to do with the configuration.
#[derive(Debug)]
pub enum ConfigurationCommand {
    Init,
    Show { format: Option<OutputFormat> },
    Var { name: Option<String>, format: Option<OutputFormat> },
}

/// What to do with the audit report.
#[derive(Debug)]
pub enum AuditCommand {
    Show { format: Option<OutputFormat> },
}

/// The action asked for.
#[derive(Debug)]
pub enum CliAction {
    Tui,
    Process(ProcessCommand),
    Networks(NetCommand),
    Containers(ContainerCommand),
    Project(ProjectCommand),
    Configuration(ConfigurationCommand),
    Audit(AuditCommand),
    Completion(Shell),
}

/// The command line, interpreted.
pub struct ParsedCli {
    /// Path of the configuration file.
    pub config_file: String,
    /// The variable overrides (a later one for a key wins).
    pub vars: StrMap<String>,
    /// The action.
    pub action: CliAction,
}

/// Whether `i` is the first `:` of `s`.
pub open spec fn is_first_colon(s: Seq<char>, i: int) -> bool {
    &&& 0 <= i < s.len()
    &&& s[i] == ':'
    &&& forall|j: int| 0 <= j < i ==> #[trigger] s[j] != ':'
}

/// `key:value` split at the first colon, or `None` without a colon.
pub open spec fn colon_split(s: Seq<char>) -> Option<(Seq<char>, Seq<char>)> {
    if exists|i: int| is_first_colon(s, i) {
        let i = choose|i: int| is_first_colon(s, i);
        Some((s.take(i), s.skip(i + 1)))
    } else {
        None
    }
}

/// The error for an override without a colon.
pub open spec fn override_error(s: Seq<char>) -> Seq<char> {
    "Invalid --override format '"@ + s + "'. Expected key:value"@
}

/// Parses a `key:value` override, split at the first colon.
pub fn parse_key_val(s: &str) -> (r: Result<(String, String), String>)
    ensures
        match r {
            Ok((k, v)) => colon_split(s@) == Some((k@, v@)),
            Err(e) => colon_split(s@) is None && e@ == override_error(s@),
        },
{
    let v = chars_of(s);
    let mut i: usize = 0;
    while i < v.len()
        invariant
            i <= v@.len(),
            v@ == s@,
            forall|j: int| 0 <= j < i ==> #[trigger] v@[j] != ':',
        decreases v@.len() - i,
    {
        if v[i] == ':' {
            proof {
                assert(is_first_colon(s@, i as int));
                let c = choose|k: int| is_first_colon(s@, k);
                if c < i {
                    assert(s@[c] != ':');
                } else if c > i {
                    assert(s@[i as int] != ':');
                }
            }
            let key = string_of_range(&v, 0, i);
            let value = string_of_range(&v, i + 1, v.len());
            assert(v@.subrange(0, i as int) =~= s@.take(i as int));
            assert(v@.subrange(i + 1, v@.len() as int) =~= s@.skip(i + 1));
            return Ok((key, value));
        }
        i = i + 1;
    }
    proof {
        if exists|k: int| is_first_colon(s@, k) {
            let c = choose|k: int| is_first_colon(s@, k);
            assert(s@[c] != ':');
        }
    }
    let mut e = owned("Invalid --override format '");
    append_str(&mut e, s);
    append_str(&mut e, "'. Expected key:value");
    Err(e)
}

/// The action of a subcommand; none means the dashboard.
pub open spec fn action_of(command: Option<Commands>) -> CliAction {
    match command {
        None => CliAction::Tui,
        Some(Commands::Tui) => CliAction::Tui,
        Some(Commands::Processes { command }) => CliAction::Process(
            match command {
                ProcessesSubcommand::Ls { format } => ProcessCommand::Ls { format },
                ProcessesSubcommand::Show { title, format } => ProcessCommand::Show { title, format },
                ProcessesSubcommand::Run { title, background } => ProcessCommand::Run { title, background },
            },
        ),
        Some(Commands::Networks { command }) => CliAction::Networks(
            match command {
                NetworksSubcommand::Ls { format } => NetCommand::Ls { format },
                NetworksSubcommand::Show { name, format } => NetCommand::Show { name, format },
                NetworksSubcommand::Create { name } => NetCommand::Create { name },
            },
        ),
        Some(Commands::Containers { command }) => CliAction::Containers(
            match command {
                ContainerSubcommand::Ls { format } => ContainerCommand::Ls { format },
            },
        ),
        Some(Commands::Project { command }) => CliAction::Project(
            match command {
                ProjectSubcommand::Show { format } => ProjectCommand::Show { format },
            },
        ),
        Some(Commands::Configuration { command }) => CliAction::Configuration(
            match command {
                ConfigurationSubcommand::Init => ConfigurationCommand::Init,
                ConfigurationSubcommand::Show { format } => ConfigurationCommand::Show { format },
                ConfigurationSubcommand::Var { name, format } => ConfigurationCommand::Var { name, format },
            },
        ),
        Some(Commands::Audit { format }) => CliAction::Audit(AuditCommand::Show { format }),
        Some(Commands::Completion { shell }) => CliAction::Completion(shell),
    }
}

/// Interprets the command line: `-` as configuration file reads standard
/// input, the overrides become the variables (a later one for a key wins),
/// and no subcommand runs the dashboard.
pub fn parse_args(cli: Cli) -> (p: ParsedCli)
    ensures
        p.config_file@ == if cli.config_file@ == "-"@ {
            "/dev/stdin"@
        } else {
            cli.config_file@
        },
        p.vars.str_map() == entries_str_map(cli.overrides@),
        p.action == action_of(cli.command),
{
    let Cli { config_file, overrides, command } = cli;
    let config_file = if crate::text::str_eq(config_file.as_str(), "-") {
        owned("/dev/stdin")
    } else {
        config_file
    };
    let vars = StrMap::from_pairs(&overrides);
    let action = match command {
        None => CliAction::Tui,
        Some(Commands::Tui) => CliAction::Tui,
        Some(Commands::Processes { command }) => CliAction::Process(
            match command {
                ProcessesSubcommand::Ls { format } => ProcessCommand::Ls { format },
                ProcessesSubcommand::Show { title, format } => ProcessCommand::Show { title, format },
                ProcessesSubcommand::Run { title, background } => ProcessCommand::Run { title, background },
            },
        ),
        Some(Commands::Networks { command }) => CliAction::Networks(
            match command {
                NetworksSubcommand::Ls { format } => NetCommand::Ls { format },
                NetworksSubcommand::Show { name, format } => NetCommand::Show { name, format },
                NetworksSubcommand::Create { name } => NetCommand::Create { name },
            },
        ),
        Some(Commands::Containers { command }) => CliAction::Containers(
            match command {
                ContainerSubcommand::Ls { format } => ContainerCommand::Ls { format },
            },
        ),
        Some(Commands::Project { command }) => CliAction::Project(
            match command {
                ProjectSubcommand::Show { format } => ProjectCommand::Show { format },
            },
        ),
        Some(Commands::Configuration { command }) => CliAction::Configuration(
            match command {
                ConfigurationSubcommand::Init => ConfigurationCommand::Init,
                ConfigurationSubcommand::Show { format } => ConfigurationCommand::Show { format },
                ConfigurationSubcommand::Var { name, format } => ConfigurationCommand::Var { name, format },
            },
        ),
        Some(Commands::Audit { format }) => CliAction::Audit(AuditCommand::Show { format }),
        Some(Commands::Completion { shell }) => CliAction::Completion(shell),
    };
    ParsedCli { config_file, vars, action }
}

} // verus!
