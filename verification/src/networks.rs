//! Docker bridge networks declared in the manifest.
use vstd::prelude::*;
use crate::runners::words_result;
use crate::schema::{DockerNetworkConfig, PinchManifest};
use crate::shell_words::{shlex_split, split_words};
use crate::text::{append_str, owned, push_word, push_words, views};
use crate::vars::{apply_vars, expand, StrMap};

verus! {

/// The subnet of a network.
pub open spec fn subnet_of(c: DockerNetworkConfig) -> Seq<char> {
    match c {
        DockerNetworkConfig::Simple(s) => s@,
        DockerNetworkConfig::Detailed { subnet, .. } => subnet@,
    }
}

/// The extra creation flags of a network.
pub open spec fn args_of(c: DockerNetworkConfig) -> Option<Seq<char>> {
    match c {
        DockerNetworkConfig::Simple(_) => None,
        DockerNetworkConfig::Detailed { args, .. } => match args {
            Some(a) => Some(a@),
            None => None,
        },
    }
}

/// The `docker network create` argv of network `key`:
/// `docker network create -o com.docker.network.bridge.name=<name> --subnet <subnet> -d bridge [args...] <name>`,
/// names, subnet and args expanded and args shell-split; or why the args do
/// not split.
pub open spec fn network_command(key: Seq<char>, c: DockerNetworkConfig, vars: Map<Seq<char>, Seq<char>>) -> Result<
    Seq<Seq<char>>,
    Seq<char>,
> {
    let name = expand(key, vars);
    let head = seq![
        "docker"@,
        "network"@,
        "create"@,
        "-o"@,
        "com.docker.network.bridge.name="@ + name,
        "--subnet"@,
        expand(subnet_of(c), vars),
        "-d"@,
        "bridge"@,
    ];
    match args_of(c) {
        None => Ok(head.push(name)),
        Some(a) => match shlex_split(expand(a, vars)) {
            Some(t) => Ok((head + t).push(name)),
            None => Err("Failed to parse args for network '"@ + name + "': "@ + a),
        },
    }
}

/// Builds the `docker network create` argv of network `net_key` (see
/// [`network_command`]).
pub fn build_docker_network_command(net_key: &str, config: &DockerNetworkConfig, vars: &StrMap<String>) -> (r:
    Result<Vec<String>, String>)
    ensures
        words_result(r) == network_command(net_key@, *config, vars.str_map()),
{
    let net_name = apply_vars(net_key, vars);
    let mut cmd: Vec<String> = Vec::new();
    push_word(&mut cmd, owned("docker"));
    push_word(&mut cmd, owned("network"));
    push_word(&mut cmd, owned("create"));
    push_word(&mut cmd, owned("-o"));
    let mut bridge = String::new();
    append_str(&mut bridge, "com.docker.network.bridge.name=");
    append_str(&mut bridge, net_name.as_str());
    push_word(&mut cmd, bridge);
    push_word(&mut cmd, owned("--subnet"));
    push_word(&mut cmd, apply_vars(config.subnet(), vars));
    push_word(&mut cmd, owned("-d"));
    push_word(&mut cmd, owned("bridge"));
    let ghost head = views(cmd@);
    let ghost name = expand(net_key@, vars.str_map());
    assert(head =~= seq![
        "docker"@,
        "network"@,
        "create"@,
        "-o"@,
        "com.docker.network.bridge.name="@ + name,
        "--subnet"@,
        expand(subnet_of(*config), vars.str_map()),
        "-d"@,
        "bridge"@,
    ]);
    match config.args() {
        Some(args) => {
            let expanded = apply_vars(args, vars);
            match split_words(expanded.as_str()) {
                Some(tokens) => {
                    push_words(&mut cmd, tokens);
                },
                None => {
                    let mut m = String::new();
                    append_str(&mut m, "Failed to parse args for network '");
                    append_str(&mut m, net_name.as_str());
                    append_str(&mut m, "': ");
                    append_str(&mut m, args);
                    return Err(m);
                },
            }
        },
        None => {},
    }
    push_word(&mut cmd, net_name);
    Ok(cmd)
}

/// The networks a command acts on: the one named `target`, or all of them in
/// declaration order; naming a network that is not defined is an error.
pub open spec fn selected_networks(m: &PinchManifest, target: Option<Seq<char>>) -> Result<
    Seq<(Seq<char>, DockerNetworkConfig)>,
    Seq<char>,
> {
    let entries = network_entries(m);
    match target {
        None => Ok(entries.map_values(|e: (String, DockerNetworkConfig)| (e.0@, e.1))),
        Some(t) => if exists|i: int| 0 <= i < entries.len() && entries[i].0@ == t {
            let i = choose|i: int| 0 <= i < entries.len() && entries[i].0@ == t;
            Ok(seq![(entries[i].0@, entries[i].1)])
        } else {
            Err("Network '"@ + t + "' not found in configuration"@)
        },
    }
}

/// The declared networks, in order.
pub open spec fn network_entries(m: &PinchManifest) -> Seq<(String, DockerNetworkConfig)> {
    match m.docker_networks {
        Some(nets) => nets.entries_spec(),
        None => Seq::empty(),
    }
}

/// Selected networks by value.
pub open spec fn selection_view(v: Seq<(&String, &DockerNetworkConfig)>) -> Seq<(Seq<char>, DockerNetworkConfig)> {
    v.map_values(|e: (&String, &DockerNetworkConfig)| (e.0@, *e.1))
}

/// Selects the networks to act on: all of them, or only `target` if given.
/// Errors when `target` names a network that is not defined.
pub fn select_networks<'a>(manifest: &'a PinchManifest, target: Option<&str>) -> (r: Result<
    Vec<(&'a String, &'a DockerNetworkConfig)>,
    String,
>)
    ensures
        match selected_networks(manifest, opt_str_view(target)) {
            Ok(s) => r.is_ok() && selection_view(r->Ok_0@) == s,
            Err(e) => r.is_err() && r->Err_0@ == e,
        },
{
    let entries: &'a Vec<(String, DockerNetworkConfig)> = match &manifest.docker_networks {
        Some(nets) => nets.entries(),
        None => {
            return match target {
                Some(t) => {
                    let mut m = String::new();
                    append_str(&mut m, "Network '");
                    append_str(&mut m, t);
                    append_str(&mut m, "' not found in configuration");
                    Err(m)
                },
                None => {
                    let out: Vec<(&'a String, &'a DockerNetworkConfig)> = Vec::new();
                    assert(selection_view(out@) =~= Seq::<(String, DockerNetworkConfig)>::empty().map_values(
                        |e: (String, DockerNetworkConfig)| (e.0@, e.1),
                    ));
                    Ok(out)
                },
            };
        },
    };
    match target {
        Some(t) => {
            let mut i: usize = 0;
            while i < entries.len()
                invariant
                    i <= entries@.len(),
                    target == Some(t),
                    crate::vars::distinct_keys(entries@),
                    entries@ == match manifest.docker_networks {
                        Some(n) => n.entries_spec(),
                        None => Seq::empty(),
                    },
                    forall|j: int| 0 <= j < i ==> entries@[j].0@ != t@,
                decreases entries@.len() - i,
            {
                if crate::text::str_eq(entries[i].0.as_str(), t) {
                    let mut out: Vec<(&'a String, &'a DockerNetworkConfig)> = Vec::new();
                    out.push((&entries[i].0, &entries[i].1));
                    proof {
                        let es = network_entries(manifest);
                        assert(es[i as int].0@ == t@);
                        assert(exists|k: int| 0 <= k < es.len() && es[k].0@ == t@);
                        let k = choose|k: int| 0 <= k < es.len() && es[k].0@ == t@;
                        if k != i {
                            if k < i {
                                assert(es[k].0@ != es[i as int].0@);
                            } else {
                                assert(es[i as int].0@ != es[k].0@);
                            }
                        }
                        assert(k == i);
                        assert(selection_view(out@) =~= seq![(es[i as int].0@, es[i as int].1)]);
                        assert(opt_str_view(target) == Some(t@));
                        assert(selected_networks(manifest, Some(t@)) == Ok::<
                            Seq<(Seq<char>, DockerNetworkConfig)>,
                            Seq<char>,
                        >(seq![(es[i as int].0@, es[i as int].1)]));
                    }
                    return Ok(out);
                }
                i = i + 1;
            }
            let mut m = String::new();
            append_str(&mut m, "Network '");
            append_str(&mut m, t);
            append_str(&mut m, "' not found in configuration");
            Err(m)
        },
        None => {
            let mut out: Vec<(&'a String, &'a DockerNetworkConfig)> = Vec::new();
            let mut i: usize = 0;
            while i < entries.len()
                invariant
                    i <= entries@.len(),
                    entries@ == match manifest.docker_networks {
                        Some(n) => n.entries_spec(),
                        None => Seq::empty(),
                    },
                    selection_view(out@) == entries@.take(i as int).map_values(
                        |e: (String, DockerNetworkConfig)| (e.0@, e.1),
                    ),
                decreases entries@.len() - i,
            {
                let ghost before = out@;
                out.push((&entries[i].0, &entries[i].1));
                assert(selection_view(out@) =~= selection_view(before).push(
                    (entries@[i as int].0@, entries@[i as int].1),
                ));
                assert(entries@.take(i + 1) =~= entries@.take(i as int).push(entries@[i as int]));
                assert(selection_view(out@) =~= entries@.take(i + 1).map_values(
                    |e: (String, DockerNetworkConfig)| (e.0@, e.1),
                ));
                i = i + 1;
            }
            assert(entries@.take(entries@.len() as int) == entries@);
            Ok(out)
        },
    }
}

/// The view of an optional string slice.
pub open spec fn opt_str_view(o: Option<&str>) -> Option<Seq<char>> {
    match o {
        Some(s) => Some(s@),
        None => None,
    }
}

/// One network to make sure of: its expanded name, and the command that
/// creates it (or why that command cannot be built), used when the network
/// does not exist yet.
pub struct NetworkJob {
    pub name: String,
    pub create_command: Result<Vec<String>, String>,
}

/// What ensuring the selected networks takes: for each, in order, its
/// expanded name and creation command; or why the selection failed.
pub fn create_networks(manifest: &PinchManifest, builtins: &StrMap<String>, cli_vars: &StrMap<String>, target: Option<&str>) -> (r: Result<Vec<NetworkJob>, String>)
    ensures
        ({
            let vars = crate::vars::layered_vars(builtins.str_map(), manifest.vars_view(), cli_vars.str_map());
            match selected_networks(manifest, opt_str_view(target)) {
                Err(e) => r.is_err() && r->Err_0@ == e,
                Ok(sel) => r.is_ok() && r->Ok_0@.len() == sel.len() && forall|i: int|
                    0 <= i < sel.len() ==> (#[trigger] r->Ok_0@[i]).name@ == expand(sel[i].0, vars)
                        && words_result(r->Ok_0@[i].create_command) == network_command(
                        sel[i].0,
                        sel[i].1,
                        vars,
                    ),
            }
        }),
{
    let context_vars = manifest.resolve_vars(builtins, cli_vars);
    let selected = match select_networks(manifest, target) {
        Ok(s) => s,
        Err(e) => {
            return Err(e);
        },
    };
    let ghost sel = selection_view(selected@);
    let mut jobs: Vec<NetworkJob> = Vec::new();
    let mut i: usize = 0;
    while i < selected.len()
        invariant
            i <= selected@.len(),
            sel == selection_view(selected@),
            jobs@.len() == i,
            context_vars.str_map() == crate::vars::layered_vars(builtins.str_map(), manifest.vars_view(), cli_vars.str_map()),
            forall|j: int|
                0 <= j < i ==> (#[trigger] jobs@[j]).name@ == expand(sel[j].0, context_vars.str_map())
                    && words_result(jobs@[j].create_command) == network_command(
                    sel[j].0,
                    sel[j].1,
                    context_vars.str_map(),
                ),
        decreases selected@.len() - i,
    {
        let (key, config) = selected[i];
        let name = apply_vars(key.as_str(), &context_vars);
        let create_command = build_docker_network_command(key.as_str(), config, &context_vars);
        jobs.push(NetworkJob { name, create_command });
        i = i + 1;
    }
    Ok(jobs)
}

} // verus!
