//! Turning a process's run configuration into the argv that starts it.
pub mod docker;
pub mod docker_intrude;
pub mod process;
pub mod remap;

use vstd::prelude::*;
use crate::schema::{
    ContainerEngine, DockerNetworkConfig, ProcessRunConfig, RunKind, RunManifest, WrappingShell,
};
use crate::shell_words::{shlex_split, split_words};
use crate::text::{append_str, owned, views};
use crate::vars::StrMap;

pub use remap::wrap_with_docker_bluff;

verus! {

/// How a command is run from the command line: replacing the current
/// process, or detached in the background.
#[derive(Debug, Clone, Copy, PartialEq, Eq, Structural)]
pub enum RunMode {
    Spawn,
    Exec,
}

/// The container a docker-type process runs.
pub struct ContainerRef {
    /// Engine running the container.
    pub engine: ContainerEngine,
    /// Name given to the container (`--name`).
    pub name: String,
}

/// A built command.
pub struct BuildOutput {
    /// The argv.
    pub cmd: Vec<String>,
    /// How it is run from the command line.
    pub run_mode: RunMode,
    /// Set for docker-type processes only.
    pub container: Option<ContainerRef>,
}

/// Result of building a command: the output or a message.
pub type BuildResult = Result<BuildOutput, String>;

/// What a builder needs besides the run configuration itself.
pub struct RunContext<'a> {
    /// Name of the process.
    pub name: &'a str,
    /// Resolved variables.
    pub vars: &'a StrMap<String>,
    /// Manifest-wide shell.
    pub global_shell: Option<WrappingShell>,
    /// The only network defined in the manifest, if exactly one is.
    pub default_docker_network: Option<&'a String>,
    /// All networks defined in the manifest.
    pub defined_networks: &'a StrMap<DockerNetworkConfig>,
    /// Whether the command is started in the background.
    pub background: bool,
}

/// Everything of a [`RunContext`] a build depends on, by value.
pub struct BuildEnv {
    pub name: Seq<char>,
    pub vars: Map<Seq<char>, Seq<char>>,
    pub global_shell: Option<WrappingShell>,
    pub default_network: Option<Seq<char>>,
    pub networks: Set<Seq<char>>,
    pub background: bool,
}

impl<'a> RunContext<'a> {
    /// The context by value.
    pub open spec fn env(&self) -> BuildEnv {
        BuildEnv {
            name: self.name@,
            vars: self.vars.str_map(),
            global_shell: self.global_shell,
            default_network: match self.default_docker_network {
                Some(n) => Some(n@),
                None => None,
            },
            networks: self.defined_networks.map().dom(),
            background: self.background,
        }
    }
}

/// The argv a run configuration builds to.
pub open spec fn run_words(run: &RunManifest, env: BuildEnv) -> Result<Seq<Seq<char>>, Seq<char>> {
    match run {
        RunManifest::Shorthand(cmd) => process::process_command(cmd@, env.global_shell, None, None, env),
        RunManifest::Detailed(kind) => kind_words(kind, env),
    }
}

/// The run mode and container reference of a built run configuration.
pub open spec fn run_output(run: &RunManifest, env: BuildEnv, out: BuildOutput) -> bool {
    match run {
        RunManifest::Shorthand(_) => out.container.is_none() && out.run_mode == process::mode_for(env.background),
        RunManifest::Detailed(kind) => kind_container(kind, env, out),
    }
}

/// Builds the command of a run configuration.
pub trait RunBuilder {
    /// The command this configuration runs in `ctx`.
    fn build_command(&self, ctx: &RunContext) -> BuildResult;
}

/// The program name of a wrapping shell.
pub open spec fn shell_program(s: WrappingShell) -> Seq<char> {
    match s {
        WrappingShell::Bash => "bash"@,
        WrappingShell::Zsh => "zsh"@,
        WrappingShell::Fish => "fish"@,
    }
}

/// The argv of a command string: `[shell, "-c", cmd]` under a shell, the
/// shell-split words otherwise, or a message when the string cannot be split.
pub open spec fn command_words(cmd: Seq<char>, shell: Option<WrappingShell>, name: Seq<char>) -> Result<
    Seq<Seq<char>>,
    Seq<char>,
> {
    match shell {
        Some(s) => Ok(seq![shell_program(s), "-c"@, cmd]),
        None => match shlex_split(cmd) {
            Some(words) => Ok(words),
            None => Err("Failed to parse command for '"@ + name + "': "@ + cmd),
        },
    }
}

/// The views of a vector-of-strings result.
pub open spec fn words_result(r: Result<Vec<String>, String>) -> Result<Seq<Seq<char>>, Seq<char>> {
    match r {
        Ok(v) => Ok(views(v@)),
        Err(e) => Err(e@),
    }
}

/// The argv of a command string (see [`command_words`]).
pub fn parse_command_string(cmd: &str, shell: Option<WrappingShell>, name: &str) -> (r: Result<
    Vec<String>,
    String,
>)
    ensures
        words_result(r) == command_words(cmd@, shell, name@),
{
    match shell {
        Some(s) => {
            let prog = match s {
                WrappingShell::Bash => owned("bash"),
                WrappingShell::Zsh => owned("zsh"),
                WrappingShell::Fish => owned("fish"),
            };
            let mut v: Vec<String> = Vec::new();
            v.push(prog);
            v.push(owned("-c"));
            v.push(owned(cmd));
            assert(views(v@) =~= seq![shell_program(s), "-c"@, cmd@]);
            Ok(v)
        },
        None => match split_words(cmd) {
            Some(words) => Ok(words),
            None => {
                let mut m = String::new();
                append_str(&mut m, "Failed to parse command for '");
                append_str(&mut m, name);
                append_str(&mut m, "': ");
                append_str(&mut m, cmd);
                Err(m)
            },
        },
    }
}

/// The argv part of a build result.
pub open spec fn build_words(r: BuildResult) -> Result<Seq<Seq<char>>, Seq<char>> {
    match r {
        Ok(o) => Ok(views(o.cmd@)),
        Err(e) => Err(e@),
    }
}

impl RunBuilder for RunManifest {
    /// A shorthand string runs as a local process under the manifest-wide
    /// shell; a detailed configuration builds as its kind does.
    fn build_command(&self, ctx: &RunContext) -> (r: BuildResult)
        ensures
            build_words(r) == run_words(self, ctx.env()),
            r is Ok ==> run_output(self, ctx.env(), r->Ok_0),
    {
        match self {
            RunManifest::Shorthand(cmd) => {
                let run = ProcessRunConfig {
                    shell: ctx.global_shell,
                    cmd: cmd.clone(),
                    remap_paths: None,
                    remap_ids: None,
                };
                run.build_command(ctx)
            },
            RunManifest::Detailed(kind) => kind.build_command(ctx),
        }
    }
}

/// The argv a run kind builds to.
pub open spec fn kind_words(kind: &RunKind, env: BuildEnv) -> Result<Seq<Seq<char>>, Seq<char>> {
    match kind {
        RunKind::Process(c) => process::process_command(
            c.cmd@,
            match c.shell {
                Some(s) => Some(s),
                None => env.global_shell,
            },
            crate::shell_words::opt_vec_views(c.remap_ids),
            crate::shell_words::opt_vec_views(c.remap_paths),
            env,
        ),
        RunKind::Docker(c) => docker::docker_command(c, env),
        RunKind::DockerIntrude(c) => docker_intrude::intrude_command(c, env),
    }
}

/// The run mode and container reference of a built run kind.
pub open spec fn kind_container(kind: &RunKind, env: BuildEnv, out: BuildOutput) -> bool {
    match kind {
        RunKind::Docker(c) => out.run_mode == RunMode::Exec && out.container.is_some()
            && out.container.unwrap().engine == docker::engine_of(c) && out.container.unwrap().name@
            == docker::container_name(c, env),
        _ => out.run_mode == process::mode_for(env.background) && out.container.is_none(),
    }
}

impl RunBuilder for RunKind {
    /// Builds as the configuration of the kind does.
    fn build_command(&self, ctx: &RunContext) -> (r: BuildResult)
        ensures
            build_words(r) == kind_words(self, ctx.env()),
            r is Ok ==> kind_container(self, ctx.env(), r->Ok_0),
    {
        match self {
            RunKind::Process(c) => c.build_command(ctx),
            RunKind::Docker(c) => c.build_command(ctx),
            RunKind::DockerIntrude(c) => c.build_command(ctx),
        }
    }
}

/// Under a wrapping shell the argv is `[program, -c, cmd]` whatever the
/// command, where the program is the shell's own name (`bash`, `zsh`,
/// `fish`); different shells give different argvs.
pub proof fn law_wrapping_shell_runs_its_own_program(cmd: Seq<char>, name: Seq<char>, s1: WrappingShell, s2: WrappingShell)
    ensures
        command_words(cmd, Some(WrappingShell::Bash), name) == Ok::<Seq<Seq<char>>, Seq<char>>(
            seq!["bash"@, "-c"@, cmd],
        ),
        command_words(cmd, Some(WrappingShell::Zsh), name) == Ok::<Seq<Seq<char>>, Seq<char>>(
            seq!["zsh"@, "-c"@, cmd],
        ),
        command_words(cmd, Some(WrappingShell::Fish), name) == Ok::<Seq<Seq<char>>, Seq<char>>(
            seq!["fish"@, "-c"@, cmd],
        ),
        s1 != s2 ==> command_words(cmd, Some(s1), name) != command_words(cmd, Some(s2), name),
{
    reveal_strlit("bash");
    reveal_strlit("zsh");
    reveal_strlit("fish");
    if s1 != s2 {
        let a = command_words(cmd, Some(s1), name)->Ok_0;
        let b = command_words(cmd, Some(s2), name)->Ok_0;
        assert(a[0] != b[0]) by {
            assert(shell_program(s1) != shell_program(s2)) by {
                if shell_program(s1).len() == shell_program(s2).len() {
                    assert(shell_program(s1)[0] != shell_program(s2)[0]);
                }
            }
        }
    }
}

} // verus!
