//! Host binaries run inside a Docker network namespace with `docker-intrude`.
use vstd::prelude::*;
use crate::runners::process::{as_slice_opt, mode_for};
use crate::runners::remap::{bluff_wrapped, wrap_with_docker_bluff};
use crate::runners::{
    build_words, command_words, parse_command_string, BuildEnv, BuildOutput, BuildResult, RunBuilder,
    RunContext, RunMode,
};
use crate::schema::DockerIntrudeRunConfig;
use crate::shell_words::opt_vec_views;
use crate::text::{
    append_range, append_str, ascii_lower, chars_of, is_ascii_alnum, owned, push_char, push_word,
    trim, trimmed, views,
};
use crate::vars::{apply_vars, expand};

verus! {

/// The characters of a process name kept in a namespace container name: `_`
/// becomes `-`, then only ASCII letters, digits and `-` remain, lower-cased.
pub open spec fn sanitized_name(name: Seq<char>) -> Seq<char>
    decreases name.len(),
{
    if name.len() == 0 {
        Seq::empty()
    } else {
        let c = if name.last() == '_' {
            '-'
        } else {
            name.last()
        };
        if is_ascii_alnum(c) || c == '-' {
            sanitized_name(name.drop_last()).push(ascii_lower(c))
        } else {
            sanitized_name(name.drop_last())
        }
    }
}

/// The network a docker-intrude process joins: its own or the default one.
pub open spec fn intrude_network(c: &DockerIntrudeRunConfig, env: BuildEnv) -> Option<Seq<char>> {
    match c.network {
        Some(n) => Some(n@),
        None => env.default_network,
    }
}

/// The argv of a docker-intrude process:
/// `docker-intrude --name pinch-ns-<name> --net <net> --ip <ip> -- <cmd>`,
/// wrapped under docker-bluff when ids are remapped, or the reason it cannot
/// be built.
pub open spec fn intrude_command(c: &DockerIntrudeRunConfig, env: BuildEnv) -> Result<
    Seq<Seq<char>>,
    Seq<char>,
> {
    let vars = env.vars;
    match intrude_network(c, env) {
        None => Err(
            "Process '"@ + env.name
                + "' has run type 'docker-intrude', but no 'network' is specified and there isn't exactly one network defined in 'docker_networks' to default to."@,
        ),
        Some(net) => if !env.networks.contains(net) {
            Err(
                "Process '"@ + env.name + "' references docker network '"@ + net
                    + "' which is not defined in the root 'docker_networks' map."@,
            )
        } else {
            let shell = match c.shell {
                Some(s) => Some(s),
                None => env.global_shell,
            };
            match command_words(expand(trim(c.cmd@), vars), shell, env.name) {
                Err(e) => Err(e),
                Ok(words) => bluff_wrapped(
                    seq![
                        "docker-intrude"@,
                        "--name"@,
                        "pinch-ns-"@ + sanitized_name(env.name),
                        "--net"@,
                        expand(net, vars),
                        "--ip"@,
                        expand(c.ip@, vars),
                        "--"@,
                    ] + words,
                    opt_vec_views(c.remap_ids),
                    opt_vec_views(c.remap_paths),
                    vars,
                    env.name,
                ),
            }
        },
    }
}

/// `pinch-ns-` followed by the sanitized process name.
pub(crate) fn namespace_container_name(name: &str) -> (r: String)
    ensures
        r@ == "pinch-ns-"@ + sanitized_name(name@),
{
    let v = chars_of(name);
    let mut out = String::new();
    append_str(&mut out, "pinch-ns-");
    let ghost prefix = out@;
    let mut i: usize = 0;
    while i < v.len()
        invariant
            i <= v@.len(),
            v@ == name@,
            out@ == prefix + sanitized_name(v@.take(i as int)),
        decreases v@.len() - i,
    {
        let c0 = v[i];
        let c = if c0 == '_' {
            '-'
        } else {
            c0
        };
        proof {
            assert(v@.take(i + 1).drop_last() == v@.take(i as int));
            assert(v@.take(i + 1).last() == c0);
        }
        if ('a' <= c && c <= 'z') || ('A' <= c && c <= 'Z') || ('0' <= c && c <= '9') || c == '-' {
            let lower = if 'A' <= c && c <= 'Z' {
                ((c as u8) + 32) as char
            } else {
                c
            };
            assert(lower == crate::text::ascii_lower(c));
            push_char(&mut out, lower);
        }
        i = i + 1;
    }
    assert(v@.take(v@.len() as int) == v@);
    out
}

impl RunBuilder for DockerIntrudeRunConfig {
    /// Resolves the network, checks it is defined, then builds the
    /// `docker-intrude` argv (see [`intrude_command`]).
    fn build_command(&self, ctx: &RunContext) -> (r: BuildResult)
        ensures
            build_words(r) == intrude_command(self, ctx.env()),
            r is Ok ==> r->Ok_0.container.is_none() && r->Ok_0.run_mode == mode_for(ctx.env().background),
    {
        let network: &String = match &self.network {
            Some(n) => n,
            None => match ctx.default_docker_network {
                Some(n) => n,
                None => {
                    let mut m = String::new();
                    append_str(&mut m, "Process '");
                    append_str(&mut m, ctx.name);
                    append_str(
                        &mut m,
                        "' has run type 'docker-intrude', but no 'network' is specified and there isn't exactly one network defined in 'docker_networks' to default to.",
                    );
                    return Err(m);
                },
            },
        };
        if !ctx.defined_networks.contains_key(network.as_str()) {
            let mut m = String::new();
            append_str(&mut m, "Process '");
            append_str(&mut m, ctx.name);
            append_str(&mut m, "' references docker network '");
            append_str(&mut m, network.as_str());
            append_str(&mut m, "' which is not defined in the root 'docker_networks' map.");
            return Err(m);
        }
        let container_name = namespace_container_name(ctx.name);
        let actual_net_name = apply_vars(network.as_str(), ctx.vars);
        let actual_ip = apply_vars(self.ip.as_str(), ctx.vars);
        let mut cmd_vec: Vec<String> = Vec::new();
        push_word(&mut cmd_vec, owned("docker-intrude"));
        push_word(&mut cmd_vec, owned("--name"));
        push_word(&mut cmd_vec, container_name);
        push_word(&mut cmd_vec, owned("--net"));
        push_word(&mut cmd_vec, actual_net_name);
        push_word(&mut cmd_vec, owned("--ip"));
        push_word(&mut cmd_vec, actual_ip);
        push_word(&mut cmd_vec, owned("--"));
        let ghost prefix = seq![
            "docker-intrude"@,
            "--name"@,
            "pinch-ns-"@ + sanitized_name(ctx.name@),
            "--net"@,
            expand(network@, ctx.vars.str_map()),
            "--ip"@,
            expand(self.ip@, ctx.vars.str_map()),
            "--"@,
        ];
        assert(views(cmd_vec@) =~= prefix);
        let t = trimmed(self.cmd.as_str());
        let expanded = apply_vars(t.as_str(), ctx.vars);
        let shell = match self.shell {
            Some(s) => Some(s),
            None => ctx.global_shell,
        };
        let tokens = match parse_command_string(expanded.as_str(), shell, ctx.name) {
            Ok(w) => w,
            Err(e) => {
                return Err(e);
            },
        };
        let ghost tv = views(tokens@);
        crate::text::push_words(&mut cmd_vec, tokens);
        assert(views(cmd_vec@) == prefix + tv);
        let cmd = match wrap_with_docker_bluff(
            cmd_vec,
            as_slice_opt(&self.remap_ids),
            as_slice_opt(&self.remap_paths),
            ctx.vars,
            ctx.name,
        ) {
            Ok(c) => c,
            Err(e) => {
                return Err(e);
            },
        };
        Ok(BuildOutput {
            cmd,
            run_mode: if ctx.background {
                RunMode::Spawn
            } else {
                RunMode::Exec
            },
            container: None,
        })
    }
}

} // verus!
