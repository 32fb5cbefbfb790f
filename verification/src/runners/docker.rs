//! Containers run with `docker run --rm` (or `podman run --rm`).
use vstd::prelude::*;
use crate::runners::process::as_slice_opt;
use crate::runners::remap::{bluff_wrapped, opt_views, wrap_with_docker_bluff};
use crate::runners::{build_words, BuildEnv, BuildOutput, BuildResult, ContainerRef, RunBuilder, RunContext, RunMode};
use crate::schema::{ContainerEngine, DockerMountConfig, DockerRunConfig};
use crate::shell_words::{opt_vec_views, shlex_split, split_words};
use crate::text::{
    append_str, join, join_strings, owned, push_word, push_words, split_char, split_on, trim,
    trimmed, views,
};
use crate::vars::{apply_vars, expand, pair_views, sort_by_key, sorted_entries, StrMap};

verus! {

/// A structured field's value: expanded, then trimmed.
pub open spec fn ex(s: Seq<char>, vars: Map<Seq<char>, Seq<char>>) -> Seq<char> {
    trim(expand(s, vars))
}

/// Expands then trims a structured field's value.
pub fn expand_trimmed(s: &str, vars: &StrMap<String>) -> (r: String)
    ensures
        r@ == ex(s@, vars.str_map()),
{
    let e = apply_vars(s, vars);
    trimmed(e.as_str())
}

/// The trimmed, non-empty pieces among `parts`, in order.
pub open spec fn trimmed_nonempty(parts: Seq<Seq<char>>) -> Seq<Seq<char>>
    decreases parts.len(),
{
    if parts.len() == 0 {
        Seq::empty()
    } else if trim(parts.last()).len() > 0 {
        trimmed_nonempty(parts.drop_last()).push(trim(parts.last()))
    } else {
        trimmed_nonempty(parts.drop_last())
    }
}

/// The `--mount` value of a mount:
/// `type=<type>,source=<source>,target=<target>[,readonly][,bind-create-src][,<opts>]`,
/// or `None` when its source expands to nothing.
pub open spec fn mount_flag(m: DockerMountConfig, vars: Map<Seq<char>, Seq<char>>) -> Option<Seq<char>> {
    let source = ex(m.source@, vars);
    if source.len() == 0 {
        None
    } else {
        let target = match m.target {
            Some(t) => if ex(t@, vars).len() > 0 {
                ex(t@, vars)
            } else {
                source
            },
            None => source,
        };
        let mount_type = match m.mount_type {
            Some(t) => if trim(t@).len() > 0 {
                trim(t@)
            } else {
                "bind"@
            },
            None => "bind"@,
        };
        let readonly = match m.readonly {
            Some(b) => b,
            None => true,
        };
        let create = match m.create {
            Some(b) => b,
            None => false,
        };
        let extras = trimmed_nonempty(
            split_on(
                match m.opts {
                    Some(o) => ex(o@, vars),
                    None => Seq::empty(),
                },
                ',',
            ),
        );
        Some(
            "type="@ + mount_type + ",source="@ + source + ",target="@ + target + (if readonly {
                ",readonly"@
            } else {
                Seq::empty()
            }) + (if create {
                ",bind-create-src"@
            } else {
                Seq::empty()
            }) + (if extras.len() > 0 {
                ","@ + join(extras, ","@)
            } else {
                Seq::empty()
            }),
        )
    }
}

fn trimmed_pieces(parts: &Vec<String>) -> (r: Vec<String>)
    ensures
        views(r@) == trimmed_nonempty(views(parts@)),
{
    let mut out: Vec<String> = Vec::new();
    let mut i: usize = 0;
    while i < parts.len()
        invariant
            i <= parts@.len(),
            views(out@) == trimmed_nonempty(views(parts@).take(i as int)),
        decreases parts@.len() - i,
    {
        let t = trimmed(parts[i].as_str());
        proof {
            assert(views(parts@).take(i + 1).drop_last() == views(parts@).take(i as int));
            assert(views(parts@).take(i + 1).last() == parts@[i as int]@);
        }
        if t.unicode_len() > 0 {
            push_word(&mut out, t);
        }
        i = i + 1;
    }
    assert(views(parts@).take(parts@.len() as int) == views(parts@));
    out
}

/// The `--mount` value of a mount (see [`mount_flag`]).
pub fn render_mount(mount: &DockerMountConfig, vars: &StrMap<String>) -> (r: Option<String>)
    ensures
        match mount_flag(*mount, vars.str_map()) {
            Some(f) => r.is_some() && r.unwrap()@ == f,
            None => r.is_none(),
        },
{
    let source = expand_trimmed(mount.source.as_str(), vars);
    if source.unicode_len() == 0 {
        return None;
    }
    let target = match &mount.target {
        Some(t) => {
            let e = expand_trimmed(t.as_str(), vars);
            if e.unicode_len() > 0 {
                e
            } else {
                source.clone()
            }
        },
        None => source.clone(),
    };
    let mount_type = match &mount.mount_type {
        Some(t) => {
            let tt = trimmed(t.as_str());
            if tt.unicode_len() > 0 {
                tt
            } else {
                owned("bind")
            }
        },
        None => owned("bind"),
    };
    let mut flag = String::new();
    append_str(&mut flag, "type=");
    append_str(&mut flag, mount_type.as_str());
    append_str(&mut flag, ",source=");
    append_str(&mut flag, source.as_str());
    append_str(&mut flag, ",target=");
    append_str(&mut flag, target.as_str());
    let readonly = match mount.readonly {
        Some(b) => b,
        None => true,
    };
    if readonly {
        append_str(&mut flag, ",readonly");
    }
    let create = match mount.create {
        Some(b) => b,
        None => false,
    };
    if create {
        append_str(&mut flag, ",bind-create-src");
    }
    let opts = match &mount.opts {
        Some(o) => expand_trimmed(o.as_str(), vars),
        None => String::new(),
    };
    let pieces = split_char(opts.as_str(), ',');
    let extras = trimmed_pieces(&pieces);
    if extras.len() > 0 {
        append_str(&mut flag, ",");
        let joined = join_strings(&extras, ",");
        append_str(&mut flag, joined.as_str());
    }
    Some(flag)
}

/// Which engine runs the container (docker unless podman is chosen).
pub open spec fn engine_of(c: &DockerRunConfig) -> ContainerEngine {
    match c.engine {
        Some(ContainerEngine::Podman) => ContainerEngine::Podman,
        _ => ContainerEngine::Docker,
    }
}

/// The engine's program name.
pub open spec fn engine_name(e: ContainerEngine) -> Seq<char> {
    match e {
        ContainerEngine::Podman => "podman"@,
        ContainerEngine::Docker => "docker"@,
    }
}

impl DockerRunConfig {
    /// The engine's program name.
    pub fn engine_binary(&self) -> (r: &'static str)
        ensures
            r@ == engine_name(engine_of(self)),
    {
        match self.engine {
            Some(ContainerEngine::Podman) => "podman",
            _ => "docker",
        }
    }
}

/// The container name: the configured one when it expands to something, the
/// process name otherwise.
pub open spec fn container_name(c: &DockerRunConfig, env: BuildEnv) -> Seq<char> {
    match c.name {
        Some(n) => if ex(n@, env.vars).len() > 0 {
            ex(n@, env.vars)
        } else {
            env.name
        },
        None => env.name,
    }
}

/// `[flag, value]` when a value is present and expands to something.
pub open spec fn value_flag(flag: Seq<char>, v: Option<Seq<char>>, vars: Map<Seq<char>, Seq<char>>) -> Seq<
    Seq<char>,
> {
    match v {
        Some(s) => if ex(s, vars).len() > 0 {
            seq![flag, ex(s, vars)]
        } else {
            Seq::empty()
        },
        None => Seq::empty(),
    }
}

/// `flag value` for each entry that expands to something, in order.
pub open spec fn list_flags(flag: Seq<char>, items: Seq<Seq<char>>, vars: Map<Seq<char>, Seq<char>>) -> Seq<
    Seq<char>,
>
    decreases items.len(),
{
    if items.len() == 0 {
        Seq::empty()
    } else {
        list_flags(flag, items.drop_last(), vars) + value_flag(flag, Some(items.last()), vars)
    }
}

/// `--mount value` for each mount that renders, in order.
pub open spec fn mount_flags(ms: Seq<DockerMountConfig>, vars: Map<Seq<char>, Seq<char>>) -> Seq<
    Seq<char>,
>
    decreases ms.len(),
{
    if ms.len() == 0 {
        Seq::empty()
    } else {
        mount_flags(ms.drop_last(), vars) + match mount_flag(ms.last(), vars) {
            Some(f) => seq!["--mount"@, f],
            None => Seq::empty(),
        }
    }
}

/// `--env KEY=value` for each entry, in the given order, values expanded.
pub open spec fn env_flags(pairs: Seq<(Seq<char>, Seq<char>)>, vars: Map<Seq<char>, Seq<char>>) -> Seq<
    Seq<char>,
>
    decreases pairs.len(),
{
    if pairs.len() == 0 {
        Seq::empty()
    } else {
        env_flags(pairs.drop_last(), vars) + seq![
            "--env"@,
            pairs.last().0 + "="@ + ex(pairs.last().1, vars),
        ]
    }
}

/// The words of a free-form flags string: expanded, trimmed and shell-split;
/// a string that does not split, or splits into nothing, is an error.
pub open spec fn flag_tokens(value: Seq<char>, vars: Map<Seq<char>, Seq<char>>, name: Seq<char>) -> Result<
    Seq<Seq<char>>,
    Seq<char>,
> {
    match shlex_split(ex(value, vars)) {
        Some(t) => if t.len() > 0 {
            Ok(t)
        } else {
            Err("Failed to parse docker run flags for '"@ + name + "': "@ + value)
        },
        None => Err("Failed to parse docker run flags for '"@ + name + "': "@ + value),
    }
}

/// [`flag_tokens`] of an optional string; nothing when absent.
pub open spec fn opt_flag_tokens(value: Option<String>, vars: Map<Seq<char>, Seq<char>>, name: Seq<char>) -> Result<
    Seq<Seq<char>>,
    Seq<char>,
> {
    match value {
        Some(v) => flag_tokens(v@, vars, name),
        None => Ok(Seq::empty()),
    }
}

/// The views of an optional list of strings, empty when absent.
pub open spec fn list_or_empty(o: Option<Vec<String>>) -> Seq<Seq<char>> {
    match o {
        Some(v) => views(v@),
        None => Seq::empty(),
    }
}

/// The argv of a container run: `<engine> run -ti|-d --rm --name <name>`,
/// then `--network`, `--ip`, `--env` (by key), `-p`, `--mount`, `--volume`,
/// the `opts` words, the image, the `args` words; wrapped under docker-bluff
/// when ids are remapped. Structured values are passed as single words;
/// empty ones are dropped.
pub open spec fn docker_command(c: &DockerRunConfig, env: BuildEnv) -> Result<
    Seq<Seq<char>>,
    Seq<char>,
> {
    let vars = env.vars;
    let head = seq![
        engine_name(engine_of(c)),
        "run"@,
        if env.background {
            "-d"@
        } else {
            "-ti"@
        },
        "--rm"@,
        "--name"@,
        container_name(c, env),
    ];
    let network = match c.network {
        Some(n) => Some(n@),
        None => env.default_network,
    };
    let env_words = match c.env {
        Some(m) => env_flags(sort_by_key(pair_views(m.entries_spec())), vars),
        None => Seq::empty(),
    };
    let mounts = match c.mounts {
        Some(ms) => mount_flags(ms@, vars),
        None => Seq::empty(),
    };
    let rendered = head + value_flag("--network"@, network, vars) + value_flag(
        "--ip"@,
        match c.ip {
            Some(i) => Some(i@),
            None => None,
        },
        vars,
    ) + env_words + list_flags("-p"@, list_or_empty(c.publish), vars) + mounts + list_flags(
        "--volume"@,
        list_or_empty(c.volumes),
        vars,
    );
    match opt_flag_tokens(c.opts, vars, env.name) {
        Err(e) => Err(e),
        Ok(opts) => match opt_flag_tokens(c.args, vars, env.name) {
            Err(e) => Err(e),
            Ok(args) => bluff_wrapped(
                rendered + opts + seq![ex(c.image@, vars)] + args,
                opt_vec_views(c.remap_ids),
                None,
                vars,
                env.name,
            ),
        },
    }
}

fn flag_words(value: &str, vars: &StrMap<String>, name: &str) -> (r: Result<Vec<String>, String>)
    ensures
        match flag_tokens(value@, vars.str_map(), name@) {
            Ok(t) => r.is_ok() && views(r->Ok_0@) == t,
            Err(e) => r.is_err() && r->Err_0@ == e,
        },
{
    let e = expand_trimmed(value, vars);
    match split_words(e.as_str()) {
        Some(t) => {
            if t.len() > 0 {
                return Ok(t);
            }
        },
        None => {},
    }
    let mut m = String::new();
    append_str(&mut m, "Failed to parse docker run flags for '");
    append_str(&mut m, name);
    append_str(&mut m, "': ");
    append_str(&mut m, value);
    Err(m)
}

fn push_value_flag(out: &mut Vec<String>, flag: &str, v: Option<&String>, vars: &StrMap<String>)
    ensures
        views(final(out)@) == views(old(out)@) + value_flag(
            flag@,
            match v {
                Some(s) => Some(s@),
                None => None,
            },
            vars.str_map(),
        ),
{
    match v {
        Some(s) => {
            let e = expand_trimmed(s.as_str(), vars);
            if e.unicode_len() > 0 {
                push_word(out, owned(flag));
                push_word(out, e);
            } else {
                assert(views(out@) =~= views(old(out)@) + Seq::<Seq<char>>::empty());
            }
        },
        None => {
            assert(views(out@) =~= views(old(out)@) + Seq::<Seq<char>>::empty());
        },
    }
}

fn push_list_flags(out: &mut Vec<String>, flag: &str, items: &Option<Vec<String>>, vars: &StrMap<String>)
    ensures
        views(final(out)@) == views(old(out)@) + list_flags(flag@, list_or_empty(*items), vars.str_map()),
{
    let empty: Vec<String> = Vec::new();
    let list: &Vec<String> = match items {
        Some(v) => v,
        None => &empty,
    };
    let ghost lv = views(list@);
    assert(lv == list_or_empty(*items));
    let mut i: usize = 0;
    assert(list_flags(flag@, lv.take(0), vars.str_map()) == Seq::<Seq<char>>::empty());
    assert(views(out@) =~= views(old(out)@) + Seq::<Seq<char>>::empty());
    while i < list.len()
        invariant
            i <= list@.len(),
            lv == views(list@),
            views(out@) == views(old(out)@) + list_flags(flag@, lv.take(i as int), vars.str_map()),
        decreases list@.len() - i,
    {
        let ghost pre = views(out@);
        push_value_flag(out, flag, Some(&list[i]), vars);
        proof {
            assert(lv.take(i + 1).drop_last() == lv.take(i as int));
            assert(lv.take(i + 1).last() == list@[i as int]@);
            assert(views(out@) =~= views(old(out)@) + list_flags(flag@, lv.take(i + 1), vars.str_map()));
        }
        i = i + 1;
    }
    assert(lv.take(list@.len() as int) == lv);
}

fn push_mount_flags(out: &mut Vec<String>, mounts: &Option<Vec<DockerMountConfig>>, vars: &StrMap<String>)
    ensures
        views(final(out)@) == views(old(out)@) + match *mounts {
            Some(ms) => mount_flags(ms@, vars.str_map()),
            None => Seq::empty(),
        },
{
    match mounts {
        None => {
            assert(views(out@) =~= views(old(out)@) + Seq::<Seq<char>>::empty());
        },
        Some(ms) => {
            let mut i: usize = 0;
            assert(mount_flags(ms@.take(0), vars.str_map()) == Seq::<Seq<char>>::empty());
            assert(views(out@) =~= views(old(out)@) + Seq::<Seq<char>>::empty());
            while i < ms.len()
                invariant
                    i <= ms@.len(),
                    views(out@) == views(old(out)@) + mount_flags(ms@.take(i as int), vars.str_map()),
                decreases ms@.len() - i,
            {
                let ghost pre = views(out@);
                proof {
                    assert(ms@.take(i + 1).drop_last() == ms@.take(i as int));
                    assert(ms@.take(i + 1).last() == ms@[i as int]);
                }
                match render_mount(&ms[i], vars) {
                    Some(f) => {
                        push_word(out, owned("--mount"));
                        push_word(out, f);
                        assert(views(out@) =~= views(old(out)@) + mount_flags(
                            ms@.take(i + 1),
                            vars.str_map(),
                        ));
                    },
                    None => {
                        assert(views(out@) =~= views(old(out)@) + mount_flags(
                            ms@.take(i + 1),
                            vars.str_map(),
                        ));
                    },
                }
                i = i + 1;
            }
            assert(ms@.take(ms@.len() as int) == ms@);
        },
    }
}

fn push_env_flags(out: &mut Vec<String>, env: &Option<StrMap<String>>, vars: &StrMap<String>)
    ensures
        views(final(out)@) == views(old(out)@) + match *env {
            Some(m) => env_flags(sort_by_key(pair_views(m.entries_spec())), vars.str_map()),
            None => Seq::empty(),
        },
{
    match env {
        None => {
            assert(views(out@) =~= views(old(out)@) + Seq::<Seq<char>>::empty());
        },
        Some(m) => {
            let sorted = sorted_entries(m);
            let ghost ps = pair_views(sorted@);
            let mut i: usize = 0;
            assert(env_flags(ps.take(0), vars.str_map()) == Seq::<Seq<char>>::empty());
            assert(views(out@) =~= views(old(out)@) + Seq::<Seq<char>>::empty());
            while i < sorted.len()
                invariant
                    i <= sorted@.len(),
                    ps == pair_views(sorted@),
                    views(out@) == views(old(out)@) + env_flags(ps.take(i as int), vars.str_map()),
                decreases sorted@.len() - i,
            {
                proof {
                    assert(ps.take(i + 1).drop_last() == ps.take(i as int));
                    assert(ps.take(i + 1).last() == (sorted@[i as int].0@, sorted@[i as int].1@));
                }
                let mut kv = String::new();
                append_str(&mut kv, sorted[i].0.as_str());
                append_str(&mut kv, "=");
                let v = expand_trimmed(sorted[i].1.as_str(), vars);
                append_str(&mut kv, v.as_str());
                push_word(out, owned("--env"));
                push_word(out, kv);
                assert(views(out@) =~= views(old(out)@) + env_flags(ps.take(i + 1), vars.str_map()));
                i = i + 1;
            }
            assert(ps.take(sorted@.len() as int) == ps);
        },
    }
}

impl RunBuilder for DockerRunConfig {
    /// Renders the structured fields as literal argv words and shell-splits
    /// only `opts` and `args` (see [`docker_command`]).
    #[verifier::spinoff_prover]
    #[verifier::rlimit(40)]
    fn build_command(&self, ctx: &RunContext) -> (r: BuildResult)
        ensures
            build_words(r) == docker_command(self, ctx.env()),
            r is Ok ==> r->Ok_0.run_mode == RunMode::Exec && r->Ok_0.container.is_some()
                && r->Ok_0.container.unwrap().engine == engine_of(self)
                && r->Ok_0.container.unwrap().name@ == container_name(self, ctx.env()),
    {
        let mut tokens: Vec<String> = Vec::new();
        push_word(&mut tokens, owned(self.engine_binary()));
        push_word(&mut tokens, owned("run"));
        push_word(
            &mut tokens,
            owned(
                if ctx.background {
                    "-d"
                } else {
                    "-ti"
                },
            ),
        );
        push_word(&mut tokens, owned("--rm"));
        let cname = match &self.name {
            Some(n) => {
                let e = expand_trimmed(n.as_str(), ctx.vars);
                if e.unicode_len() > 0 {
                    e
                } else {
                    owned(ctx.name)
                }
            },
            None => owned(ctx.name),
        };
        push_word(&mut tokens, owned("--name"));
        push_word(&mut tokens, cname.clone());
        let ghost vars = ctx.vars.str_map();
        let ghost head = seq![
            engine_name(engine_of(self)),
            "run"@,
            if ctx.background {
                "-d"@
            } else {
                "-ti"@
            },
            "--rm"@,
            "--name"@,
            container_name(self, ctx.env()),
        ];
        assert(views(tokens@) =~= head);
        let network: Option<&String> = match &self.network {
            Some(n) => Some(n),
            None => ctx.default_docker_network,
        };
        push_value_flag(&mut tokens, "--network", network, ctx.vars);
        let ip: Option<&String> = match &self.ip {
            Some(i) => Some(i),
            None => None,
        };
        push_value_flag(&mut tokens, "--ip", ip, ctx.vars);
        push_env_flags(&mut tokens, &self.env, ctx.vars);
        push_list_flags(&mut tokens, "-p", &self.publish, ctx.vars);
        push_mount_flags(&mut tokens, &self.mounts, ctx.vars);
        push_list_flags(&mut tokens, "--volume", &self.volumes, ctx.vars);
        let opts = match &self.opts {
            Some(o) => match flag_words(o.as_str(), ctx.vars, ctx.name) {
                Ok(t) => t,
                Err(e) => {
                    return Err(e);
                },
            },
            None => Vec::new(),
        };
        let args = match &self.args {
            Some(a) => match flag_words(a.as_str(), ctx.vars, ctx.name) {
                Ok(t) => t,
                Err(e) => {
                    return Err(e);
                },
            },
            None => Vec::new(),
        };
        let ghost rendered = views(tokens@);
        let ghost ov = views(opts@);
        let ghost av = views(args@);
        push_words(&mut tokens, opts);
        push_word(&mut tokens, expand_trimmed(self.image.as_str(), ctx.vars));
        push_words(&mut tokens, args);
        assert(views(tokens@) =~= rendered + ov + seq![ex(self.image@, vars)] + av);
        let cmd = match wrap_with_docker_bluff(tokens, as_slice_opt(&self.remap_ids), None, ctx.vars, ctx.name) {
            Ok(c) => c,
            Err(e) => {
                return Err(e);
            },
        };
        Ok(BuildOutput {
            cmd,
            run_mode: RunMode::Exec,
            container: Some(ContainerRef { engine: match self.engine {
                Some(ContainerEngine::Podman) => ContainerEngine::Podman,
                _ => ContainerEngine::Docker,
            }, name: cname }),
        })
    }
}

/// A container runs detached in the background and interactively in the
/// foreground: every argv built for a container that is not wrapped under
/// docker-bluff reads `<docker|podman> run -d` when the context is
/// background and `<docker|podman> run -ti` otherwise, then `--rm`.
pub proof fn law_background_containers_run_detached(c: &DockerRunConfig, env: BuildEnv)
    requires
        c.remap_ids is None,
    ensures
        docker_command(c, env) is Ok ==> {
            let w = docker_command(c, env)->Ok_0;
            &&& w.len() >= 4
            &&& w[0] == "docker"@ || w[0] == "podman"@
            &&& w[1] == "run"@
            &&& env.background ==> w[2] == "-d"@ && w[2] != "-ti"@
            &&& !env.background ==> w[2] == "-ti"@ && w[2] != "-d"@
            &&& w[3] == "--rm"@
        },
{
    reveal_strlit("-d");
    reveal_strlit("-ti");
    if docker_command(c, env) is Ok {
        let vars = env.vars;
        match opt_flag_tokens(c.opts, vars, env.name) {
            Err(e) => {},
            Ok(opts) => match opt_flag_tokens(c.args, vars, env.name) {
                Err(e) => {},
                Ok(args) => {
                    assert(opt_vec_views(c.remap_ids) is None);
                },
            },
        }
    }
}

} // verus!
