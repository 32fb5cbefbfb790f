//! The prepared configuration: the manifest with variables resolved and every
//! process's command built.
use vstd::prelude::*;
use crate::runners::process::mode_for;
use crate::runners::{
    build_words, run_words, BuildEnv, BuildOutput, RunBuilder, RunContext, RunMode,
};
use crate::schema::{
    copy_opt_string, duplicate_nodes, nodes_view, DockerNetworkConfig, LayoutNode, PaneMode,
    PinchManifest, ProcessManifest, RunKind, RunManifest,
};
use crate::text::{opt_view, views};
use crate::vars::{apply_vars, expand, layered_vars, StrMap};

verus! {

/// Output formats of the inspection commands.
#[derive(Debug, Clone, Copy, PartialEq, Eq, Structural)]
pub enum OutputFormat {
    Yaml,
    Raw,
    Json,
    Properties,
}

/// The prepared configuration of the supervisor.
pub struct PinchConfig {
    /// Title shown at the top of the dashboard.
    pub title: String,
    /// The processes, in manifest order.
    pub processes: Vec<ProcessConfig>,
    /// Maximum number of log lines kept per pane.
    pub logs_max_size: Option<usize>,
    /// Layout rules.
    pub layout: Vec<LayoutNode>,
}

/// A prepared process.
pub struct ProcessConfig {
    /// Name of the process.
    pub name: String,
    /// Display name of its pane.
    pub title: String,
    /// The argv that starts it.
    pub cmd: Vec<String>,
    /// Associated link, expanded.
    pub link: Option<String>,
    /// Working directory, expanded.
    pub cwd: Option<String>,
    /// Watched paths, expanded.
    pub watch: Vec<String>,
    /// Debounce delay for file watching.
    pub watch_settle_time_ms: u64,
    /// Display mode of the pane.
    pub mode: PaneMode,
    /// Whether it starts on launch.
    pub auto_start: bool,
    /// Whether it restarts after exiting.
    pub auto_restart: bool,
    /// Delay before an automatic restart, in milliseconds.
    pub grace_period: u64,
    /// How it runs from the command line.
    pub run_mode: RunMode,
}

/// The value of an option, or a default.
pub open spec fn or_default<T>(o: Option<T>, d: T) -> T {
    match o {
        Some(v) => v,
        None => d,
    }
}

/// The first present option of two.
pub open spec fn first_some<T>(a: Option<T>, b: Option<T>) -> Option<T> {
    match a {
        Some(v) => Some(v),
        None => b,
    }
}

/// An optional string expanded against `vars`.
pub open spec fn expand_opt(o: Option<String>, vars: Map<Seq<char>, Seq<char>>) -> Option<Seq<char>> {
    match o {
        Some(s) => Some(expand(s@, vars)),
        None => None,
    }
}

/// Each string of a list expanded against `vars`.
pub open spec fn expand_all(s: Seq<Seq<char>>, vars: Map<Seq<char>, Seq<char>>) -> Seq<Seq<char>> {
    s.map_values(|x: Seq<char>| expand(x, vars))
}

/// The run mode of a built run configuration.
pub open spec fn run_mode_of(run: &RunManifest, background: bool) -> RunMode {
    match run {
        RunManifest::Detailed(RunKind::Docker(_)) => RunMode::Exec,
        _ => mode_for(background),
    }
}

impl PinchManifest {
    /// The manifest's own variables by view.
    pub open spec fn vars_view(&self) -> Option<Map<Seq<char>, Seq<char>>> {
        match self.vars {
            Some(m) => Some(m.str_map()),
            None => None,
        }
    }

    /// The processes of the manifest (none when absent).
    pub open spec fn process_list(&self) -> Seq<ProcessManifest> {
        match self.processes {
            Some(v) => v@,
            None => Seq::empty(),
        }
    }

    /// The network a process defaults to: the only one defined, if exactly
    /// one is.
    pub open spec fn default_network(&self) -> Option<Seq<char>> {
        match self.docker_networks {
            Some(m) => if m.entries_spec().len() == 1 {
                Some(m.entries_spec()[0].0@)
            } else {
                None
            },
            None => None,
        }
    }

    /// Names of the defined networks.
    pub open spec fn network_names(&self) -> Set<Seq<char>> {
        match self.docker_networks {
            Some(m) => m.map().dom(),
            None => Set::empty(),
        }
    }

    /// The build context of the process named `name`.
    pub open spec fn env_for(&self, name: Seq<char>, vars: Map<Seq<char>, Seq<char>>, background: bool) -> BuildEnv {
        BuildEnv {
            name,
            vars,
            global_shell: self.shell,
            default_network: self.default_network(),
            networks: self.network_names(),
            background,
        }
    }

    /// The argv of process `raw`, or why it cannot be built.
    pub open spec fn words_of(&self, raw: ProcessManifest, vars: Map<Seq<char>, Seq<char>>, background: bool) -> Result<
        Seq<Seq<char>>,
        Seq<char>,
    > {
        run_words(&raw.run, self.env_for(raw.name@, vars, background))
    }

    /// `pc` is the prepared form of `raw`.
    pub open spec fn prepared_as(
        &self,
        raw: ProcessManifest,
        pc: ProcessConfig,
        vars: Map<Seq<char>, Seq<char>>,
        background: bool,
    ) -> bool {
        &&& pc.name@ == raw.name@
        &&& pc.title@ == match raw.title {
            Some(t) => t@,
            None => raw.name@,
        }
        &&& self.words_of(raw, vars, background) == Ok::<Seq<Seq<char>>, Seq<char>>(views(pc.cmd@))
        &&& opt_view(pc.link) == expand_opt(raw.link, vars)
        &&& opt_view(pc.cwd) == expand_opt(raw.cwd, vars)
        &&& views(pc.watch@) == expand_all(
            match raw.watch {
                Some(w) => views(w@),
                None => Seq::empty(),
            },
            vars,
        )
        &&& pc.watch_settle_time_ms == or_default(
            first_some(raw.watch_settle_time_ms, self.watch_settle_time_ms),
            800,
        )
        &&& pc.mode == or_default(raw.mode, PaneMode::Log)
        &&& pc.auto_start == or_default(first_some(raw.auto_start, self.auto_start), true)
        &&& pc.auto_restart == or_default(first_some(raw.auto_restart, self.auto_restart), true)
        &&& pc.grace_period == or_default(first_some(raw.grace_period, self.grace_period), 3000)
        &&& pc.run_mode == run_mode_of(&raw.run, background)
    }

    /// Resolves the variables visible to the manifest: the built-ins, then the
    /// manifest's `vars`, then the command-line overrides, later sources
    /// winning.
    pub fn resolve_vars(&self, builtins: &StrMap<String>, cli_vars: &StrMap<String>) -> (r: StrMap<
        String,
    >)
        ensures
            r.str_map() == layered_vars(builtins.str_map(), self.vars_view(), cli_vars.str_map()),
    {
        let mut context_vars = builtins.clone_map();
        match &self.vars {
            Some(user_vars) => context_vars.extend_from(user_vars),
            None => {},
        }
        context_vars.extend_from(cli_vars);
        context_vars
    }

    /// Prepares the configuration: resolves the variables and builds every
    /// process's command, failing with the first process that cannot be built.
    pub fn prepare(&self, builtins: &StrMap<String>, cli_vars: &StrMap<String>, background: bool) -> (r:
        Result<PinchConfig, String>)
        ensures
            ({
                let vars = layered_vars(builtins.str_map(), self.vars_view(), cli_vars.str_map());
                let raws = self.process_list();
                match r {
                    Ok(cfg) => {
                        &&& cfg.title@ == self.name@
                        &&& cfg.logs_max_size == self.logs_max_size
                        &&& nodes_view(cfg.layout@) == nodes_view(
                            match self.layout {
                                Some(l) => l@,
                                None => Seq::empty(),
                            },
                        )
                        &&& cfg.processes@.len() == raws.len()
                        &&& forall|i: int|
                            0 <= i < raws.len() ==> self.prepared_as(
                                raws[i],
                                #[trigger] cfg.processes@[i],
                                vars,
                                background,
                            )
                    },
                    Err(e) => exists|i: int|
                        0 <= i < raws.len() && self.words_of(raws[i], vars, background) == Err::<
                            Seq<Seq<char>>,
                            Seq<char>,
                        >(e@) && forall|j: int|
                            0 <= j < i ==> (#[trigger] self.words_of(raws[j], vars, background)) is Ok,
                }
            }),
    {
        let context_vars = self.resolve_vars(builtins, cli_vars);
        let ghost vars = context_vars.str_map();
        let ghost raws = self.process_list();
        let empty_networks: StrMap<DockerNetworkConfig> = StrMap::new();
        let defined_networks: &StrMap<DockerNetworkConfig> = match &self.docker_networks {
            Some(m) => m,
            None => &empty_networks,
        };
        let default_docker_network: Option<&String> = if defined_networks.len() == 1 {
            Some(&defined_networks.entries()[0].0)
        } else {
            None
        };
        let empty_processes: Vec<ProcessManifest> = Vec::new();
        let processes: &Vec<ProcessManifest> = match &self.processes {
            Some(p) => p,
            None => &empty_processes,
        };
        assert(processes@ == raws);
        let mut prepared: Vec<ProcessConfig> = Vec::new();
        let mut i: usize = 0;
        while i < processes.len()
            invariant
                i <= processes@.len(),
                processes@ == raws,
                raws == self.process_list(),
                vars == context_vars.str_map(),
                vars == layered_vars(builtins.str_map(), self.vars_view(), cli_vars.str_map()),
                prepared@.len() == i,
                defined_networks.map().dom() == self.network_names(),
                match default_docker_network {
                    Some(n) => Some(n@),
                    None => None,
                } == self.default_network(),
                forall|j: int|
                    0 <= j < i ==> self.prepared_as(raws[j], #[trigger] prepared@[j], vars, background),
            decreases processes@.len() - i,
        {
            let raw = &processes[i];
            let ctx = RunContext {
                name: raw.name.as_str(),
                vars: &context_vars,
                global_shell: self.shell,
                default_docker_network,
                defined_networks,
                background,
            };
            assert(ctx.env() == self.env_for(raw.name@, vars, background));
            let built = match raw.run.build_command(&ctx) {
                Ok(b) => b,
                Err(e) => {
                    proof {
                        assert forall|j: int| 0 <= j < i implies (#[trigger] self.words_of(
                            raws[j],
                            vars,
                            background,
                        )) is Ok by {
                            assert(self.prepared_as(raws[j], prepared@[j], vars, background));
                        }
                        assert(self.words_of(raws[i as int], vars, background) == Err::<
                            Seq<Seq<char>>,
                            Seq<char>,
                        >(e@));
                    }
                    return Err(e);
                },
            };
            let cwd = match &raw.cwd {
                Some(c) => Some(apply_vars(c.as_str(), &context_vars)),
                None => None,
            };
            let link = match &raw.link {
                Some(l) => Some(apply_vars(l.as_str(), &context_vars)),
                None => None,
            };
            let mut watch: Vec<String> = Vec::new();
            match &raw.watch {
                Some(ws) => {
                    let mut k: usize = 0;
                    while k < ws.len()
                        invariant
                            k <= ws@.len(),
                            vars == context_vars.str_map(),
                            views(watch@) == expand_all(views(ws@).take(k as int), vars),
                        decreases ws@.len() - k,
                    {
                        let w = apply_vars(ws[k].as_str(), &context_vars);
                        let ghost before = watch@;
                        let ghost wv = w@;
                        watch.push(w);
                        assert(views(watch@) =~= views(before).push(wv));
                        assert(views(ws@).take(k + 1) =~= views(ws@).take(k as int).push(ws@[k as int]@));
                        assert(views(watch@) =~= expand_all(views(ws@).take(k + 1), vars));
                        k = k + 1;
                    }
                    assert(views(ws@).take(ws@.len() as int) == views(ws@));
                },
                None => {
                    assert(views(watch@) =~= expand_all(Seq::empty(), vars));
                },
            }
            let title = match &raw.title {
                Some(t) => t.clone(),
                None => raw.name.clone(),
            };
            let pc = ProcessConfig {
                name: raw.name.clone(),
                title,
                cmd: built.cmd,
                link,
                cwd,
                watch,
                watch_settle_time_ms: match raw.watch_settle_time_ms {
                    Some(v) => v,
                    None => match self.watch_settle_time_ms {
                        Some(v) => v,
                        None => 800,
                    },
                },
                mode: match raw.mode {
                    Some(m) => m,
                    None => PaneMode::Log,
                },
                auto_start: match raw.auto_start {
                    Some(v) => v,
                    None => match self.auto_start {
                        Some(v) => v,
                        None => true,
                    },
                },
                auto_restart: match raw.auto_restart {
                    Some(v) => v,
                    None => match self.auto_restart {
                        Some(v) => v,
                        None => true,
                    },
                },
                grace_period: match raw.grace_period {
                    Some(v) => v,
                    None => match self.grace_period {
                        Some(v) => v,
                        None => 3000,
                    },
                },
                run_mode: built.run_mode,
            };
            assert(self.prepared_as(raws[i as int], pc, vars, background));
            prepared.push(pc);
            i = i + 1;
        }
        let layout = match &self.layout {
            Some(l) => duplicate_nodes(l),
            None => Vec::new(),
        };
        Ok(PinchConfig {
            title: self.name.clone(),
            processes: prepared,
            logs_max_size: self.logs_max_size,
            layout,
        })
    }
}

/// Per-process settings win over the global ones: a setting given on the
/// process is the prepared value whatever the global setting; the global
/// value is used only when the process leaves it unset; the default
/// (auto start and auto restart on, a 3000 ms grace period, an 800 ms
/// settle time) only when both are unset.
pub proof fn law_process_settings_override_globals(
    m: &PinchManifest,
    raw: ProcessManifest,
    pc: ProcessConfig,
    vars: Map<Seq<char>, Seq<char>>,
    background: bool,
)
    requires
        m.prepared_as(raw, pc, vars, background),
    ensures
        raw.auto_start is Some ==> pc.auto_start == raw.auto_start->0,
        raw.auto_start is None && m.auto_start is Some ==> pc.auto_start == m.auto_start->0,
        raw.auto_start is None && m.auto_start is None ==> pc.auto_start,
        raw.auto_restart is Some ==> pc.auto_restart == raw.auto_restart->0,
        raw.auto_restart is None && m.auto_restart is Some ==> pc.auto_restart == m.auto_restart->0,
        raw.auto_restart is None && m.auto_restart is None ==> pc.auto_restart,
        raw.grace_period is Some ==> pc.grace_period == raw.grace_period->0,
        raw.grace_period is None && m.grace_period is Some ==> pc.grace_period == m.grace_period->0,
        raw.grace_period is None && m.grace_period is None ==> pc.grace_period == 3000,
        raw.watch_settle_time_ms is Some ==> pc.watch_settle_time_ms == raw.watch_settle_time_ms->0,
        raw.watch_settle_time_ms is None && m.watch_settle_time_ms is Some ==> pc.watch_settle_time_ms
            == m.watch_settle_time_ms->0,
        raw.watch_settle_time_ms is None && m.watch_settle_time_ms is None ==> pc.watch_settle_time_ms == 800,
{
}

} // verus!
