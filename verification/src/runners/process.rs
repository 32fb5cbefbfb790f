//! Local OS processes.
use vstd::prelude::*;
use crate::runners::remap::{bluff_wrapped, opt_views, wrap_with_docker_bluff};
use crate::runners::{
    build_words, command_words, parse_command_string, BuildEnv, BuildOutput, BuildResult, RunBuilder,
    RunContext, RunMode,
};
use crate::schema::{ProcessRunConfig, WrappingShell};
use crate::shell_words::opt_vec_views;
use crate::text::{trim, trimmed};
use crate::vars::{apply_vars, expand};

verus! {

/// Run mode of a command started in the background or not.
pub open spec fn mode_for(background: bool) -> RunMode {
    if background {
        RunMode::Spawn
    } else {
        RunMode::Exec
    }
}

/// The argv of a local process: the command string trimmed and expanded, split
/// (or shell-wrapped), then wrapped under docker-bluff when ids are remapped.
pub open spec fn process_command(
    cmd: Seq<char>,
    shell: Option<WrappingShell>,
    remap_ids: Option<Seq<Seq<char>>>,
    remap_paths: Option<Seq<Seq<char>>>,
    env: BuildEnv,
) -> Result<Seq<Seq<char>>, Seq<char>> {
    match command_words(expand(trim(cmd), env.vars), shell, env.name) {
        Err(e) => Err(e),
        Ok(words) => bluff_wrapped(words, remap_ids, remap_paths, env.vars, env.name),
    }
}

/// A borrowed view of an optional vector.
pub(crate) fn as_slice_opt(o: &Option<Vec<String>>) -> (r: Option<&[String]>)
    ensures
        opt_views(r) == opt_vec_views(*o),
{
    match o {
        Some(v) => Some(v.as_slice()),
        None => None,
    }
}

impl RunBuilder for ProcessRunConfig {
    /// Expands and parses the command, then applies the id remapping.
    fn build_command(&self, ctx: &RunContext) -> (r: BuildResult)
        ensures
            build_words(r) == process_command(
                self.cmd@,
                match self.shell {
                    Some(s) => Some(s),
                    None => ctx.env().global_shell,
                },
                opt_vec_views(self.remap_ids),
                opt_vec_views(self.remap_paths),
                ctx.env(),
            ),
            r is Ok ==> r->Ok_0.container.is_none() && r->Ok_0.run_mode == mode_for(ctx.env().background),
    {
        let t = trimmed(self.cmd.as_str());
        let expanded = apply_vars(t.as_str(), ctx.vars);
        let shell = match self.shell {
            Some(s) => Some(s),
            None => ctx.global_shell,
        };
        let words = match parse_command_string(expanded.as_str(), shell, ctx.name) {
            Ok(w) => w,
            Err(e) => {
                return Err(e);
            },
        };
        let cmd = match wrap_with_docker_bluff(
            words,
            as_slice_opt(&self.remap_ids),
            as_slice_opt(&self.remap_paths),
            ctx.vars,
            ctx.name,
        ) {
            Ok(c) => c,
            Err(e) => {
                return Err(e);
            },
        };
        Ok(BuildOutput {
            cmd,
            run_mode: if ctx.background {
                RunMode::Spawn
            } else {
                RunMode::Exec
            },
            container: None,
        })
    }
}

} // verus!
