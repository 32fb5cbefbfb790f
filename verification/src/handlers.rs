//! The inspection commands: the text each one prints for a manifest.
use vstd::prelude::*;
use crate::config::OutputFormat;
use crate::networks::{build_docker_network_command, network_command, network_entries};
use crate::output::{
    format_command_args, list_rendered, map_rendered, quoted_word, render_list, render_map,
    render_single, result_view, single_rendered,
};
use crate::runners::words_result;
use crate::schema::{DockerNetworkConfig, PinchManifest, ProcessManifest, RunKind, RunManifest};
use crate::text::{append_str, join, join_strings, owned, seq_lt, str_eq, views};
use crate::vars::{
    apply_vars, expand, keys_increasing, layered_vars, lists_map, pair_views, sorted_entries,
    sorted_listing, StrMap,
};

verus! {

/// The title a process is listed under: its title, else its name.
pub open spec fn shown_title(p: ProcessManifest) -> Seq<char> {
    match p.title {
        Some(t) => t@,
        None => p.name@,
    }
}

/// The titles of the manifest's processes, in order.
pub open spec fn process_titles(m: &PinchManifest) -> Seq<Seq<char>> {
    m.process_list().map_values(|p: ProcessManifest| shown_title(p))
}

/// Lists the titles of the processes.
pub fn list_processes(manifest: &PinchManifest, format: Option<OutputFormat>) -> (r: Result<String, String>)
    ensures
        list_rendered(result_view(r), process_titles(manifest), format),
{
    let mut titles: Vec<String> = Vec::new();
    if let Some(processes) = &manifest.processes {
        let mut i: usize = 0;
        while i < processes.len()
            invariant
                i <= processes@.len(),
                manifest.process_list() == processes@,
                views(titles@) == process_titles(manifest).take(i as int),
            decreases processes@.len() - i,
        {
            let t = match &processes[i].title {
                Some(t) => t.clone(),
                None => processes[i].name.clone(),
            };
            assert(t@ == process_titles(manifest)[i as int]);
            let ghost before = titles@;
            titles.push(t);
            assert(views(titles@) =~= views(before).push(t@));
            assert(process_titles(manifest).take(i + 1) =~= process_titles(manifest).take(i as int).push(
                process_titles(manifest)[i as int],
            ));
            i = i + 1;
        }
        assert(process_titles(manifest).take(processes@.len() as int) =~= process_titles(manifest));
    } else {
        assert(views(titles@) =~= process_titles(manifest));
    }
    render_list(&titles, format)
}

/// The variables visible to the manifest.
pub open spec fn visible_vars(m: &PinchManifest, builtins: &StrMap<String>, cli_vars: &StrMap<String>) -> Map<
    Seq<char>,
    Seq<char>,
> {
    layered_vars(builtins.str_map(), m.vars_view(), cli_vars.str_map())
}

/// Shows one resolved variable, or all of them in name order.
pub fn show_vars(
    manifest: &PinchManifest,
    builtins: &StrMap<String>,
    cli_vars: &StrMap<String>,
    target: Option<&str>,
    format: Option<OutputFormat>,
) -> (r: Result<String, String>)
    ensures
        ({
            let vars = visible_vars(manifest, builtins, cli_vars);
            match target {
                Some(name) => if vars.contains_key(name@) {
                    single_rendered(result_view(r), vars[name@], format)
                } else {
                    result_view(r) == Err::<Seq<char>, Seq<char>>(
                        "Variable '"@ + name@ + "' not found in configuration"@,
                    )
                },
                None => exists|s: Seq<(Seq<char>, Seq<char>)>|
                    sorted_listing(s, vars) && map_rendered(result_view(r), s, format),
            }
        }),
{
    let context_vars = manifest.resolve_vars(builtins, cli_vars);
    match target {
        Some(name) => {
            proof {
                context_vars.lemma_str_map(name@);
            }
            match context_vars.get(name) {
                Some(val) => render_single(val.as_str(), format),
                None => {
                    let mut e = owned("Variable '");
                    append_str(&mut e, name);
                    append_str(&mut e, "' not found in configuration");
                    Err(e)
                },
            }
        },
        None => {
            let sorted = sorted_entries(&context_vars);
            let r = render_map(&sorted, format);
            assert(sorted_listing(pair_views(sorted@), visible_vars(manifest, builtins, cli_vars)));
            r
        },
    }
}

/// The command line of an argv: its words separated by spaces.
pub open spec fn command_text(words: Seq<Seq<char>>) -> Seq<char> {
    join(words, " "@)
}

/// The argv of process `i` of the manifest, or why it cannot be built.
pub open spec fn built(m: &PinchManifest, vars: Map<Seq<char>, Seq<char>>, i: int) -> Result<
    Seq<Seq<char>>,
    Seq<char>,
> {
    m.words_of(m.process_list()[i], vars, false)
}

/// Whether some process of the manifest cannot be built.
pub open spec fn some_build_fails(m: &PinchManifest, vars: Map<Seq<char>, Seq<char>>) -> bool {
    exists|i: int| 0 <= i < m.process_list().len() && built(m, vars, i) is Err
}

/// `e` is why the first process that cannot be built fails.
pub open spec fn first_build_error(m: &PinchManifest, vars: Map<Seq<char>, Seq<char>>, e: Seq<char>) -> bool {
    exists|i: int|
        0 <= i < m.process_list().len() && built(m, vars, i) == Err::<Seq<Seq<char>>, Seq<char>>(e)
            && forall|j: int| 0 <= j < i ==> (#[trigger] built(m, vars, j)) is Ok
}

/// The command line of each process under its title (a later process with
/// the same title wins), over the first `n` processes.
pub open spec fn title_commands(m: &PinchManifest, vars: Map<Seq<char>, Seq<char>>, n: int) -> Map<
    Seq<char>,
    Seq<char>,
>
    decreases n,
{
    if n <= 0 {
        Map::empty()
    } else {
        title_commands(m, vars, n - 1).insert(
            shown_title(m.process_list()[n - 1]),
            command_text(built(m, vars, n - 1)->Ok_0),
        )
    }
}

/// Whether `i` is the first process listed under `title`.
pub open spec fn is_first_titled(m: &PinchManifest, title: Seq<char>, i: int) -> bool {
    &&& 0 <= i < m.process_list().len()
    &&& shown_title(m.process_list()[i]) == title
    &&& forall|j: int| 0 <= j < i ==> shown_title(#[trigger] m.process_list()[j]) != title
}

/// The prepared processes (as for the dashboard), with what the inspection
/// commands need of them.
fn prepared_processes(manifest: &PinchManifest, builtins: &StrMap<String>, cli_vars: &StrMap<String>) -> (r: Result<
    Vec<crate::config::ProcessConfig>,
    String,
>)
    ensures
        ({
            let vars = visible_vars(manifest, builtins, cli_vars);
            let raws = manifest.process_list();
            match r {
                Ok(procs) => procs@.len() == raws.len() && (forall|k: int|
                    0 <= k < raws.len() ==> #[trigger] built(manifest, vars, k) == Ok::<
                        Seq<Seq<char>>,
                        Seq<char>,
                    >(views(procs@[k].cmd@)) && procs@[k].title@ == shown_title(raws[k])) && (forall|k: int|
                    0 <= k < raws.len() ==> (#[trigger] procs@[k]).title@ == shown_title(raws[k])),
                Err(e) => some_build_fails(manifest, vars) && first_build_error(manifest, vars, e@),
            }
        }),
{
    let ghost vars = visible_vars(manifest, builtins, cli_vars);
    let ghost raws = manifest.process_list();
    match manifest.prepare(builtins, cli_vars, false) {
        Ok(config) => {
            let procs = config.processes;
            assert forall|k: int| 0 <= k < raws.len() implies #[trigger] built(manifest, vars, k) == Ok::<
                Seq<Seq<char>>,
                Seq<char>,
            >(views(procs@[k].cmd@)) && procs@[k].title@ == shown_title(raws[k]) by {
                assert(manifest.prepared_as(raws[k], procs@[k], vars, false));
            }
            assert forall|k: int| 0 <= k < raws.len() implies (#[trigger] procs@[k]).title@ == shown_title(raws[k]) by {
                assert(built(manifest, vars, k) is Ok);
            }
            Ok(procs)
        },
        Err(e) => {
            proof {
                let i = choose|i: int|
                    0 <= i < raws.len() && manifest.words_of(raws[i], vars, false) == Err::<
                        Seq<Seq<char>>,
                        Seq<char>,
                    >(e@) && forall|j: int|
                        0 <= j < i ==> (#[trigger] manifest.words_of(raws[j], vars, false)) is Ok;
                assert(built(manifest, vars, i) is Err);
                assert forall|j: int| 0 <= j < i implies (#[trigger] built(manifest, vars, j)) is Ok by {
                    assert(manifest.words_of(raws[j], vars, false) is Ok);
                }
            }
            Err(e)
        },
    }
}

/// The first prepared process with title `title`.
fn find_titled(procs: &Vec<crate::config::ProcessConfig>, title: &str) -> (r: Option<usize>)
    ensures
        match r {
            Some(i) => i < procs@.len() && procs@[i as int].title@ == title@ && forall|j: int|
                0 <= j < i ==> (#[trigger] procs@[j]).title@ != title@,
            None => forall|j: int| 0 <= j < procs@.len() ==> (#[trigger] procs@[j]).title@ != title@,
        },
{
    let mut i: usize = 0;
    while i < procs.len()
        invariant
            i <= procs@.len(),
            forall|j: int| 0 <= j < i ==> (#[trigger] procs@[j]).title@ != title@,
        decreases procs@.len() - i,
    {
        if str_eq(procs[i].title.as_str(), title) {
            return Some(i);
        }
        i = i + 1;
    }
    None
}

/// Shows the command line of the process listed under `target`, or of all
/// processes in title order. Fails like preparing the configuration when a
/// process cannot be built.
pub fn show_processes(
    manifest: &PinchManifest,
    builtins: &StrMap<String>,
    cli_vars: &StrMap<String>,
    target: Option<&str>,
    format: Option<OutputFormat>,
) -> (r: Result<String, String>)
    ensures
        ({
            let vars = visible_vars(manifest, builtins, cli_vars);
            if some_build_fails(manifest, vars) {
                r is Err && first_build_error(manifest, vars, r->Err_0@)
            } else {
                match target {
                    Some(t) => if exists|i: int| is_first_titled(manifest, t@, i) {
                        let i = choose|i: int| is_first_titled(manifest, t@, i);
                        single_rendered(result_view(r), command_text(built(manifest, vars, i)->Ok_0), format)
                    } else {
                        result_view(r) == Err::<Seq<char>, Seq<char>>(
                            "Process with title '"@ + t@ + "' not found in configuration"@,
                        )
                    },
                    None => exists|s: Seq<(Seq<char>, Seq<char>)>|
                        sorted_listing(s, title_commands(manifest, vars, manifest.process_list().len() as int))
                            && map_rendered(result_view(r), s, format),
                }
            }
        }),
{
    let ghost vars = visible_vars(manifest, builtins, cli_vars);
    let ghost raws = manifest.process_list();
    let procs = match prepared_processes(manifest, builtins, cli_vars) {
        Ok(p) => p,
        Err(e) => {
            return Err(e);
        },
    };
    let procs = &procs;
    match target {
        Some(title) => {
            assert(!some_build_fails(manifest, vars)) by {
                if some_build_fails(manifest, vars) {
                    let k = choose|k: int| 0 <= k < raws.len() && built(manifest, vars, k) is Err;
                    assert(built(manifest, vars, k) is Ok);
                }
            }
            match find_titled(procs, title) {
                Some(i) => {
                    proof {
                        assert forall|j: int| 0 <= j < i implies shown_title(
                            #[trigger] manifest.process_list()[j],
                        ) != title@ by {
                            assert(procs@[j].title@ == shown_title(raws[j]));
                        }
                        assert(procs@[i as int].title@ == shown_title(raws[i as int]));
                        assert(is_first_titled(manifest, title@, i as int));
                        let c = choose|k: int| is_first_titled(manifest, title@, k);
                        if c < i {
                            assert(procs@[c].title@ != title@);
                        } else if c > i {
                            assert(shown_title(raws[i as int]) != title@);
                        }
                    }
                    let line = join_strings(&procs[i].cmd, " ");
                    assert(line@ == command_text(built(manifest, vars, i as int)->Ok_0));
                    render_single(line.as_str(), format)
                },
                None => {
                    proof {
                        if exists|k: int| is_first_titled(manifest, title@, k) {
                            let c = choose|k: int| is_first_titled(manifest, title@, k);
                            assert(procs@[c].title@ != title@);
                        }
                    }
                    let mut e = owned("Process with title '");
                    append_str(&mut e, title);
                    append_str(&mut e, "' not found in configuration");
                    Err(e)
                },
            }
        },
        None => {
            let lines = title_lines(manifest, Ghost(vars), procs);
            let sorted = sorted_entries(&lines);
            let r = render_map(&sorted, format);
            assert(sorted_listing(pair_views(sorted@), title_commands(manifest, vars, raws.len() as int)));
            r
        },
    }
}

/// The command line of each prepared process under its title (a later
/// one with the same title wins).
fn title_lines(
    manifest: &PinchManifest,
    Ghost(vars): Ghost<Map<Seq<char>, Seq<char>>>,
    procs: &Vec<crate::config::ProcessConfig>,
) -> (lines: StrMap<String>)
    requires
        procs@.len() == manifest.process_list().len(),
        forall|k: int|
            0 <= k < procs@.len() ==> #[trigger] built(manifest, vars, k) == Ok::<Seq<Seq<char>>, Seq<char>>(
                views(procs@[k].cmd@),
            ) && procs@[k].title@ == shown_title(manifest.process_list()[k]),
    ensures
        lines.str_map() == title_commands(manifest, vars, procs@.len() as int),
{
    let mut lines: StrMap<String> = StrMap::new();
    let mut i: usize = 0;
    assert(lines.str_map() =~= title_commands(manifest, vars, 0));
    while i < procs.len()
        invariant
            i <= procs@.len(),
            procs@.len() == manifest.process_list().len(),
            forall|k: int|
                0 <= k < procs@.len() ==> #[trigger] built(manifest, vars, k) == Ok::<
                    Seq<Seq<char>>,
                    Seq<char>,
                >(views(procs@[k].cmd@)) && procs@[k].title@ == shown_title(manifest.process_list()[k]),
            lines.str_map() == title_commands(manifest, vars, i as int),
        decreases procs@.len() - i,
    {
        assert(built(manifest, vars, i as int) == Ok::<Seq<Seq<char>>, Seq<char>>(views(procs@[i as int].cmd@)));
        let line = join_strings(&procs[i].cmd, " ");
        lines.insert_str(procs[i].title.clone(), line);
        i = i + 1;
    }
    lines
}

/// The names of the declared networks, in declaration order.
pub open spec fn network_names_in_order(m: &PinchManifest) -> Seq<Seq<char>> {
    network_entries(m).map_values(|e: (String, DockerNetworkConfig)| e.0@)
}

/// Lists the names of the declared networks.
pub fn list_networks(manifest: &PinchManifest, format: Option<OutputFormat>) -> (r: Result<String, String>)
    ensures
        list_rendered(result_view(r), network_names_in_order(manifest), format),
{
    let mut names: Vec<String> = Vec::new();
    if let Some(networks) = &manifest.docker_networks {
        let entries = networks.entries();
        let mut i: usize = 0;
        while i < entries.len()
            invariant
                i <= entries@.len(),
                network_entries(manifest) == entries@,
                views(names@) == network_names_in_order(manifest).take(i as int),
            decreases entries@.len() - i,
        {
            let n = entries[i].0.clone();
            assert(n@ == network_names_in_order(manifest)[i as int]);
            let ghost before = names@;
            names.push(n);
            assert(views(names@) =~= views(before).push(n@));
            assert(network_names_in_order(manifest).take(i + 1) =~= network_names_in_order(manifest).take(
                i as int,
            ).push(network_names_in_order(manifest)[i as int]));
            i = i + 1;
        }
        assert(network_names_in_order(manifest).take(entries@.len() as int) =~= network_names_in_order(manifest));
    } else {
        assert(views(names@) =~= network_names_in_order(manifest));
    }
    render_list(&names, format)
}

/// An argv as a shell command line: each word quoted, separated by spaces.
pub open spec fn quoted_line(words: Seq<Seq<char>>) -> Seq<char> {
    join(words.map_values(|w: Seq<char>| quoted_word(w)), " "@)
}

/// The creation command line of each of the first `n` declared networks,
/// under its name.
pub open spec fn network_lines(m: &PinchManifest, vars: Map<Seq<char>, Seq<char>>, n: int) -> Map<
    Seq<char>,
    Seq<char>,
>
    decreases n,
{
    if n <= 0 {
        Map::empty()
    } else {
        let e = network_entries(m)[n - 1];
        network_lines(m, vars, n - 1).insert(e.0@, quoted_line(network_command(e.0@, e.1, vars)->Ok_0))
    }
}

/// The creation command of declared network `i`.
pub open spec fn network_built(m: &PinchManifest, vars: Map<Seq<char>, Seq<char>>, i: int) -> Result<
    Seq<Seq<char>>,
    Seq<char>,
> {
    let e = network_entries(m)[i];
    network_command(e.0@, e.1, vars)
}

/// The message for a network that is not declared.
pub open spec fn unknown_network(name: Seq<char>) -> Seq<char> {
    "Network '"@ + name + "' not found in configuration"@
}

/// The creation command line of every declared network under its name, or
/// why the first one that fails cannot be built.
fn network_lines_of(
    manifest: &PinchManifest,
    entries: &Vec<(String, DockerNetworkConfig)>,
    context_vars: &StrMap<String>,
) -> (r: Result<StrMap<String>, String>)
    requires
        network_entries(manifest) == entries@,
    ensures
        match r {
            Ok(lines) => (forall|j: int|
                0 <= j < entries@.len() ==> (#[trigger] network_built(manifest, context_vars.str_map(), j)) is Ok)
                && lines.str_map() == network_lines(manifest, context_vars.str_map(), entries@.len() as int),
            Err(e) => exists|i: int|
                0 <= i < entries@.len() && network_built(manifest, context_vars.str_map(), i) == Err::<
                    Seq<Seq<char>>,
                    Seq<char>,
                >(e@) && forall|j: int|
                    0 <= j < i ==> (#[trigger] network_built(manifest, context_vars.str_map(), j)) is Ok,
        },
{
    let mut lines: StrMap<String> = StrMap::new();
    let mut i: usize = 0;
    assert(lines.str_map() =~= network_lines(manifest, context_vars.str_map(), 0));
    while i < entries.len()
        invariant
            i <= entries@.len(),
            network_entries(manifest) == entries@,
            forall|j: int| 0 <= j < i ==> (#[trigger] network_built(manifest, context_vars.str_map(), j)) is Ok,
            lines.str_map() == network_lines(manifest, context_vars.str_map(), i as int),
        decreases entries@.len() - i,
    {
        let words = build_docker_network_command(entries[i].0.as_str(), &entries[i].1, context_vars);
        assert(words_result(words) == network_built(manifest, context_vars.str_map(), i as int));
        match words {
            Ok(w) => {
                let line = format_command_args(w);
                let key = entries[i].0.clone();
                lines.insert_str(key, line);
            },
            Err(e) => {
                return Err(e);
            },
        }
        i = i + 1;
    }
    Ok(lines)
}

/// Shows the `docker network create` command line of the network
/// `target`, or of all declared networks in name order; a network whose
/// args do not split fails (the first one in declaration order).
pub fn show_networks(
    manifest: &PinchManifest,
    builtins: &StrMap<String>,
    cli_vars: &StrMap<String>,
    target: Option<&str>,
    format: Option<OutputFormat>,
) -> (r: Result<String, String>)
    ensures
        ({
            let vars = visible_vars(manifest, builtins, cli_vars);
            match manifest.docker_networks {
                Some(nets) => match target {
                    Some(name) => if nets.map().contains_key(name@) {
                        match network_command(name@, nets.map()[name@], vars) {
                            Ok(w) => single_rendered(result_view(r), quoted_line(w), format),
                            Err(e) => result_view(r) == Err::<Seq<char>, Seq<char>>(e),
                        }
                    } else {
                        result_view(r) == Err::<Seq<char>, Seq<char>>(unknown_network(name@))
                    },
                    None => if exists|i: int|
                        0 <= i < network_entries(manifest).len() && network_built(manifest, vars, i) is Err {
                        r is Err && exists|i: int|
                            0 <= i < network_entries(manifest).len() && network_built(manifest, vars, i) == Err::<
                                Seq<Seq<char>>,
                                Seq<char>,
                            >(r->Err_0@) && forall|j: int|
                                0 <= j < i ==> (#[trigger] network_built(manifest, vars, j)) is Ok
                    } else {
                        exists|s: Seq<(Seq<char>, Seq<char>)>|
                            sorted_listing(s, network_lines(manifest, vars, network_entries(manifest).len() as int))
                                && map_rendered(result_view(r), s, format)
                    },
                },
                None => match target {
                    Some(t) => result_view(r) == Err::<Seq<char>, Seq<char>>(unknown_network(t@)),
                    None => map_rendered(result_view(r), Seq::empty(), format),
                },
            }
        }),
{
    let context_vars = manifest.resolve_vars(builtins, cli_vars);
    match &manifest.docker_networks {
        Some(networks) => match target {
            Some(name) => match networks.get(name) {
                Some(config) => {
                    let words = build_docker_network_command(name, config, &context_vars);
                    match words {
                        Ok(w) => {
                            let line = format_command_args(w);
                            render_single(line.as_str(), format)
                        },
                        Err(e) => Err(e),
                    }
                },
                None => {
                    let mut e = owned("Network '");
                    append_str(&mut e, name);
                    append_str(&mut e, "' not found in configuration");
                    Err(e)
                },
            },
            None => {
                let entries = networks.entries();
                match network_lines_of(manifest, entries, &context_vars) {
                    Ok(lines) => {
                        let sorted = sorted_entries(&lines);
                        let r = render_map(&sorted, format);
                        assert(sorted_listing(
                            pair_views(sorted@),
                            network_lines(manifest, context_vars.str_map(), entries@.len() as int),
                        ));
                        r
                    },
                    Err(e) => Err(e),
                }
            },
        },
        None => match target {
            Some(t) => {
                let mut e = owned("Network '");
                append_str(&mut e, t);
                append_str(&mut e, "' not found in configuration");
                Err(e)
            },
            None => {
                let empty: Vec<(String, String)> = Vec::new();
                assert(pair_views(empty@) =~= Seq::<(Seq<char>, Seq<char>)>::empty());
                render_map(&empty, format)
            },
        },
    }
}

/// The image of a process that runs a container.
pub open spec fn docker_image(p: ProcessManifest) -> Option<Seq<char>> {
    match p.run {
        RunManifest::Detailed(RunKind::Docker(c)) => Some(c.image@),
        _ => None,
    }
}

/// The expanded images of the first `n` processes, each mapped to nothing.
pub open spec fn image_map(raws: Seq<ProcessManifest>, vars: Map<Seq<char>, Seq<char>>, n: int) -> Map<
    Seq<char>,
    Seq<char>,
>
    decreases n,
{
    if n <= 0 {
        Map::empty()
    } else {
        let rest = image_map(raws, vars, n - 1);
        match docker_image(raws[n - 1]) {
            Some(im) => rest.insert(expand(im, vars), Seq::empty()),
            None => rest,
        }
    }
}

/// The expanded images the processes run, each once.
pub open spec fn used_images(m: &PinchManifest, vars: Map<Seq<char>, Seq<char>>) -> Set<Seq<char>> {
    image_map(m.process_list(), vars, m.process_list().len() as int).dom()
}

proof fn lemma_keys_listing(ps: Seq<(Seq<char>, Seq<char>)>, m: Map<Seq<char>, Seq<char>>, out: Seq<String>)
    requires
        sorted_listing(ps, m),
        out.len() == ps.len(),
        forall|t: int| 0 <= t < out.len() ==> (#[trigger] out[t])@ == ps[t].0,
    ensures
        forall|i: int, j: int| 0 <= i < j < out.len() ==> seq_lt(#[trigger] out[i]@, #[trigger] out[j]@),
        forall|s: Seq<char>| views(out).contains(s) <==> m.dom().contains(s),
{
    assert forall|i: int, j: int| 0 <= i < j < out.len() implies seq_lt(#[trigger] out[i]@, #[trigger] out[j]@) by {
        assert(out[i]@ == ps[i].0);
        assert(out[j]@ == ps[j].0);
    }
    assert forall|s: Seq<char>| views(out).contains(s) <==> m.dom().contains(s) by {
        if views(out).contains(s) {
            let i = choose|i: int| 0 <= i < views(out).len() && views(out)[i] == s;
            assert(out[i]@ == ps[i].0);
        }
        if m.dom().contains(s) {
            assert(m.contains_key(s));
            let i = choose|i: int| 0 <= i < ps.len() && ps[i].0 == s;
            assert(views(out)[i] == s);
        }
    }
}

/// The images the processes run (expanded), each once, in increasing order.
pub fn used_containers(manifest: &PinchManifest, context_vars: &StrMap<String>) -> (r: Vec<String>)
    ensures
        forall|i: int, j: int| 0 <= i < j < r@.len() ==> seq_lt(#[trigger] r@[i]@, #[trigger] r@[j]@),
        forall|s: Seq<char>| views(r@).contains(s) <==> used_images(manifest, context_vars.str_map()).contains(s),
{
    let ghost raws = manifest.process_list();
    let ghost vars = context_vars.str_map();
    let mut images: StrMap<String> = StrMap::new();
    if let Some(processes) = &manifest.processes {
        let mut i: usize = 0;
        assert(images.str_map() =~= image_map(raws, vars, 0));
        while i < processes.len()
            invariant
                i <= processes@.len(),
                raws == processes@,
                vars == context_vars.str_map(),
                images.str_map() == image_map(raws, vars, i as int),
            decreases processes@.len() - i,
        {
            if let RunManifest::Detailed(RunKind::Docker(docker_cfg)) = &processes[i].run {
                let resolved_image = apply_vars(docker_cfg.image.as_str(), context_vars);
                images.insert_str(resolved_image, String::new());
            }
            i = i + 1;
        }
    } else {
        assert(images.str_map() =~= image_map(raws, vars, raws.len() as int));
    }
    let sorted = sorted_entries(&images);
    let ghost ps = pair_views(sorted@);
    let mut out: Vec<String> = Vec::new();
    let mut k: usize = 0;
    while k < sorted.len()
        invariant
            k <= sorted@.len(),
            ps == pair_views(sorted@),
            out@.len() == k,
            forall|t: int| 0 <= t < k ==> (#[trigger] out@[t])@ == ps[t].0,
        decreases sorted@.len() - k,
    {
        let key = sorted[k].0.clone();
        out.push(key);
        k = k + 1;
    }
    proof {
        lemma_keys_listing(ps, image_map(raws, vars, raws.len() as int), out@);
    }
    out
}

/// Lists the images the processes run, each once, in increasing order.
pub fn list_images(
    manifest: &PinchManifest,
    builtins: &StrMap<String>,
    cli_vars: &StrMap<String>,
    format: Option<OutputFormat>,
) -> (r: Result<String, String>)
    ensures
        exists|images: Seq<Seq<char>>|
            (forall|i: int, j: int| 0 <= i < j < images.len() ==> seq_lt(#[trigger] images[i], #[trigger] images[j]))
                && (forall|s: Seq<char>|
                images.contains(s) <==> used_images(manifest, visible_vars(manifest, builtins, cli_vars)).contains(s))
                && list_rendered(result_view(r), images, format),
{
    let context_vars = manifest.resolve_vars(builtins, cli_vars);
    let images = used_containers(manifest, &context_vars);
    let r = render_list(&images, format);
    assert(forall|i: int, j: int|
        0 <= i < j < views(images@).len() ==> seq_lt(#[trigger] views(images@)[i], #[trigger] views(images@)[j])) by {
        assert forall|i: int, j: int| 0 <= i < j < views(images@).len() implies seq_lt(
            #[trigger] views(images@)[i],
            #[trigger] views(images@)[j],
        ) by {
            assert(seq_lt(images@[i]@, images@[j]@));
        }
    }
    r
}


/// Whether `i` is the first process listed under `title`.
pub open spec fn is_first_prepared(procs: Seq<crate::config::ProcessConfig>, title: Seq<char>, i: int) -> bool {
    &&& 0 <= i < procs.len()
    &&& procs[i].title@ == title
    &&& forall|j: int| 0 <= j < i ==> (#[trigger] procs[j]).title@ != title
}

/// The message for a title no process is listed under.
pub open spec fn title_not_found(title: Seq<char>) -> Seq<char> {
    "Process with title '"@ + title + "' not found in configuration"@
}

/// How a process is run from the command line: its program and arguments,
/// its working directory, and whether it replaces the current process or is
/// detached.
pub struct LaunchPlan {
    pub program: String,
    pub args: Vec<String>,
    pub cwd: Option<String>,
    pub run_mode: crate::runners::RunMode,
}

/// Whether `plan` runs the prepared process `p`.
pub open spec fn launches(p: crate::config::ProcessConfig, plan: LaunchPlan) -> bool {
    &&& p.cmd@.len() > 0
    &&& plan.program@ == p.cmd@[0]@
    &&& views(plan.args@) == views(p.cmd@).skip(1)
    &&& plan.cwd == p.cwd
    &&& plan.run_mode == p.run_mode
}

/// The launch of the first process listed under `title` in a prepared
/// configuration; fails when no process is listed under it, or when that
/// process has no command.
pub fn launch_plan(config: &crate::config::PinchConfig, title: &str) -> (r: Result<LaunchPlan, String>)
    ensures
        match r {
            Ok(plan) => exists|i: int|
                is_first_prepared(config.processes@, title@, i) && launches(
                    #[trigger] config.processes@[i],
                    plan,
                ),
            Err(e) => {
                ||| (forall|j: int|
                    0 <= j < config.processes@.len() ==> (#[trigger] config.processes@[j]).title@
                        != title@) && e@ == title_not_found(title@)
                ||| exists|i: int|
                    is_first_prepared(config.processes@, title@, i) && (
                    #[trigger] config.processes@[i]).cmd@.len() == 0 && e@
                        == crate::watch::missing_command(config.processes@[i].title@)
            },
        },
{
    match find_titled(&config.processes, title) {
        None => {
            let mut e = owned("Process with title '");
            append_str(&mut e, title);
            append_str(&mut e, "' not found in configuration");
            Err(e)
        },
        Some(i) => {
            let p = &config.processes[i];
            assert(is_first_prepared(config.processes@, title@, i as int));
            match crate::watch::command_parts(p, p.title.as_str()) {
                Ok((program, args)) => {
                    let plan = LaunchPlan {
                        program,
                        args,
                        cwd: crate::schema::copy_opt_string(&p.cwd),
                        run_mode: p.run_mode,
                    };
                    assert(launches(config.processes@[i as int], plan));
                    Ok(plan)
                },
                Err(e) => Err(e),
            }
        },
    }
}

} // verus!
