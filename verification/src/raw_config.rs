//! The flat configuration format: one command line per process, with global
//! defaults, turned into ready-to-launch process settings.
use vstd::prelude::*;
use crate::config::{expand_all, expand_opt, first_some, or_default};
use crate::runners::docker_intrude::{namespace_container_name, sanitized_name};
use crate::schema::{LayoutEdge, PaneMode};
use crate::shell_words::{opt_vec_views, shlex_split, split_words};
use crate::text::{opt_view, owned, push_word, push_words, trim, trimmed, views};
use crate::vars::{apply_vars, StrMap};

verus! {

/// The Docker network and address a process joins.
pub struct DockerConfig {
    pub network: String,
    pub ip: String,
}

/// A titled share of a layout block.
pub struct LayoutSplit {
    pub title: String,
    pub size_percentage: u16,
}

/// A block carved from one edge of the screen.
pub struct LayoutBlock {
    pub title: Option<String>,
    pub edge: LayoutEdge,
    pub size_percentage: u16,
    pub direction: Option<String>,
    pub splits: Option<Vec<LayoutSplit>>,
}

/// The configuration as written.
pub struct RawPinchConfig {
    pub title: Option<String>,
    pub vars: Option<StrMap<String>>,
    pub processes: Vec<RawProcessConfig>,
    pub logs_max_size: Option<usize>,
    pub auto_start: Option<bool>,
    pub auto_restart: Option<bool>,
    pub grace_period: Option<u64>,
    pub shell: Option<bool>,
    pub docker_network: Option<String>,
    pub watch_settle_time_ms: Option<u64>,
    pub layout: Option<Vec<LayoutBlock>>,
}

/// A process as written.
pub struct RawProcessConfig {
    pub title: String,
    pub cmd: String,
    pub cwd: Option<String>,
    pub watch: Option<Vec<String>>,
    pub watch_settle_time_ms: Option<u64>,
    pub mode: Option<PaneMode>,
    pub auto_start: Option<bool>,
    pub auto_restart: Option<bool>,
    pub grace_period: Option<u64>,
    pub shell: Option<bool>,
    pub docker_network: Option<String>,
    pub docker_ip: Option<String>,
}

/// The prepared configuration.
pub struct PinchConfig {
    pub title: String,
    pub processes: Vec<ProcessConfig>,
    pub logs_max_size: Option<usize>,
    pub layout: Vec<LayoutBlock>,
}

/// A prepared process: its argv and settings with every default applied.
pub struct ProcessConfig {
    pub title: String,
    pub cmd: Vec<String>,
    pub cwd: Option<String>,
    pub watch: Vec<String>,
    pub watch_settle_time_ms: u64,
    pub mode: PaneMode,
    pub auto_start: bool,
    pub auto_restart: bool,
    pub grace_period: u64,
}

/// The variables a configuration sees: the built-ins, overridden by its own
/// `vars`.
pub open spec fn context_of(raw: RawPinchConfig, builtins: Map<Seq<char>, Seq<char>>) -> Map<
    Seq<char>,
    Seq<char>,
> {
    match raw.vars {
        Some(v) => builtins.union_prefer_right(v.str_map()),
        None => builtins,
    }
}

/// Whether the process runs through `bash -c` (its own setting, else the
/// global one, else no).
pub open spec fn uses_shell(raw: RawPinchConfig, p: RawProcessConfig) -> bool {
    or_default(first_some(p.shell, raw.shell), false)
}

/// The Docker network of a process: its own, else the global one.
pub open spec fn network_of(raw: RawPinchConfig, p: RawProcessConfig) -> Option<Seq<char>> {
    first_some(opt_view(p.docker_network), opt_view(raw.docker_network))
}

/// The command line with the variables spliced in as they are.
pub open spec fn expanded_command(raw: RawPinchConfig, p: RawProcessConfig, builtins: Map<Seq<char>, Seq<char>>) -> Seq<
    char,
> {
    crate::vars::expand(trim(p.cmd@), context_of(raw, builtins))
}

/// The words that run the command: `bash -c <line>` with a shell, else the
/// line split as a shell would (`None` when it cannot be split).
pub open spec fn command_tail(raw: RawPinchConfig, p: RawProcessConfig, builtins: Map<Seq<char>, Seq<char>>) -> Option<
    Seq<Seq<char>>,
> {
    if uses_shell(raw, p) {
        Some(seq!["bash"@, "-c"@, expanded_command(raw, p, builtins)])
    } else {
        shlex_split(expanded_command(raw, p, builtins))
    }
}

/// `docker-intrude --name pinch-ns-<title> --net <network> --ip <ip> --`.
pub open spec fn intrude_prefix(title: Seq<char>, network: Seq<char>, ip: Seq<char>) -> Seq<Seq<char>> {
    seq![
        "docker-intrude"@,
        "--name"@,
        "pinch-ns-"@ + sanitized_name(title),
        "--net"@,
        network,
        "--ip"@,
        ip,
        "--"@,
    ]
}

/// The argv of a process, behind `docker-intrude` when it has an address.
pub open spec fn command_words(raw: RawPinchConfig, p: RawProcessConfig, builtins: Map<Seq<char>, Seq<char>>) -> Option<
    Seq<Seq<char>>,
> {
    match command_tail(raw, p, builtins) {
        None => None,
        Some(t) => match p.docker_ip {
            Some(ip) => Some(intrude_prefix(p.title@, network_of(raw, p)->0, ip@) + t),
            None => Some(t),
        },
    }
}

/// A process can be prepared: an address comes with a network, and its
/// command line can be split.
pub open spec fn process_ok(raw: RawPinchConfig, p: RawProcessConfig, builtins: Map<Seq<char>, Seq<char>>) -> bool {
    &&& p.docker_ip is Some ==> network_of(raw, p) is Some
    &&& command_words(raw, p, builtins) is Some
}

/// Every process can be prepared.
pub open spec fn all_ok(raw: RawPinchConfig, builtins: Map<Seq<char>, Seq<char>>) -> bool {
    forall|i: int| 0 <= i < raw.processes@.len() ==> process_ok(raw, #[trigger] raw.processes@[i], builtins)
}

/// The watched paths as written.
pub open spec fn watch_list(p: RawProcessConfig) -> Seq<Seq<char>> {
    match p.watch {
        Some(w) => views(w@),
        None => Seq::empty(),
    }
}

/// `q` is the process `p` prepared.
pub open spec fn process_prepared(
    q: ProcessConfig,
    raw: RawPinchConfig,
    p: RawProcessConfig,
    builtins: Map<Seq<char>, Seq<char>>,
) -> bool {
    let ctx = context_of(raw, builtins);
    &&& q.title@ == p.title@
    &&& command_words(raw, p, builtins) == Some(views(q.cmd@))
    &&& opt_view(q.cwd) == expand_opt(p.cwd, ctx)
    &&& views(q.watch@) == expand_all(watch_list(p), ctx)
    &&& q.watch_settle_time_ms == or_default(first_some(p.watch_settle_time_ms, raw.watch_settle_time_ms), 800)
    &&& q.mode == or_default(p.mode, PaneMode::Log)
    &&& q.auto_start == or_default(first_some(p.auto_start, raw.auto_start), true)
    &&& q.auto_restart == or_default(first_some(p.auto_restart, raw.auto_restart), true)
    &&& q.grace_period == or_default(first_some(p.grace_period, raw.grace_period), 3000)
}

/// `cfg` is `raw` prepared against the built-in variables.
pub open spec fn raw_prepared(cfg: PinchConfig, raw: RawPinchConfig, builtins: Map<Seq<char>, Seq<char>>) -> bool {
    &&& cfg.title@ == or_default(opt_view(raw.title), "Process Supervisor"@)
    &&& cfg.logs_max_size == raw.logs_max_size
    &&& cfg.layout@ == match raw.layout {
        Some(l) => l@,
        None => Seq::empty(),
    }
    &&& cfg.processes@.len() == raw.processes@.len()
    &&& forall|i: int|
        0 <= i < raw.processes@.len() ==> process_prepared(
            #[trigger] cfg.processes@[i],
            raw,
            raw.processes@[i],
            builtins,
        )
}

/// The words that run the command of `p`.
fn build_tail(
    raw: &RawPinchConfig,
    p: &RawProcessConfig,
    ctx: &StrMap<String>,
    Ghost(builtins): Ghost<Map<Seq<char>, Seq<char>>>,
) -> (r: Option<Vec<String>>)
    requires
        ctx.str_map() == context_of(*raw, builtins),
    ensures
        opt_vec_views(r) == command_tail(*raw, *p, builtins),
{
    let line = trimmed(p.cmd.as_str());
    let expanded = apply_vars(line.as_str(), ctx);
    let shell = match p.shell {
        Some(b) => b,
        None => match raw.shell {
            Some(b) => b,
            None => false,
        },
    };
    if shell {
        let mut words: Vec<String> = Vec::new();
        push_word(&mut words, owned("bash"));
        push_word(&mut words, owned("-c"));
        push_word(&mut words, expanded);
        assert(views(words@) =~= seq!["bash"@, "-c"@, expanded_command(*raw, *p, builtins)]);
        Some(words)
    } else {
        split_words(expanded.as_str())
    }
}

/// The process `p` prepared, or `None` when it cannot be.
fn build_process(
    raw: &RawPinchConfig,
    p: &RawProcessConfig,
    ctx: &StrMap<String>,
    Ghost(builtins): Ghost<Map<Seq<char>, Seq<char>>>,
) -> (r: Option<ProcessConfig>)
    requires
        ctx.str_map() == context_of(*raw, builtins),
    ensures
        r is Some <==> process_ok(*raw, *p, builtins),
        r is Some ==> process_prepared(r->0, *raw, *p, builtins),
{
    let tail = match build_tail(raw, p, ctx, Ghost(builtins)) {
        Some(t) => t,
        None => {
            return None;
        },
    };
    let cmd = match &p.docker_ip {
        Some(ip) => {
            let network = match &p.docker_network {
                Some(n) => owned(n.as_str()),
                None => match &raw.docker_network {
                    Some(n) => owned(n.as_str()),
                    None => {
                        return None;
                    },
                },
            };
            assert(network_of(*raw, *p) == Some(network@));
            let mut words: Vec<String> = Vec::new();
            push_word(&mut words, owned("docker-intrude"));
            push_word(&mut words, owned("--name"));
            push_word(&mut words, namespace_container_name(p.title.as_str()));
            push_word(&mut words, owned("--net"));
            push_word(&mut words, network);
            push_word(&mut words, owned("--ip"));
            push_word(&mut words, owned(ip.as_str()));
            push_word(&mut words, owned("--"));
            assert(views(words@) =~= intrude_prefix(p.title@, network_of(*raw, *p)->0, ip@));
            push_words(&mut words, tail);
            words
        },
        None => tail,
    };
    let cwd = match &p.cwd {
        Some(c) => Some(apply_vars(c.as_str(), ctx)),
        None => None,
    };
    let mut watch: Vec<String> = Vec::new();
    let ghost wl = watch_list(*p);
    let ghost c = context_of(*raw, builtins);
    match &p.watch {
        Some(ws) => {
            let mut i: usize = 0;
            while i < ws.len()
                invariant
                    i <= ws@.len(),
                    wl == views(ws@),
                    ctx.str_map() == c,
                    views(watch@) == expand_all(wl.take(i as int), c),
                decreases ws@.len() - i,
            {
                let e = apply_vars(ws[i].as_str(), ctx);
                push_word(&mut watch, e);
                assert(wl.take(i + 1) =~= wl.take(i as int).push(wl[i as int]));
                assert(expand_all(wl.take(i + 1), c) =~= expand_all(wl.take(i as int), c).push(
                    crate::vars::expand(wl[i as int], c),
                ));
                i = i + 1;
            }
            assert(wl.take(ws@.len() as int) =~= wl);
        },
        None => {
            assert(expand_all(wl, c) =~= Seq::<Seq<char>>::empty());
        },
    }
    let settle = match p.watch_settle_time_ms {
        Some(v) => v,
        None => match raw.watch_settle_time_ms {
            Some(v) => v,
            None => 800,
        },
    };
    let mode = match p.mode {
        Some(m) => m,
        None => PaneMode::Log,
    };
    let auto_start = match p.auto_start {
        Some(b) => b,
        None => match raw.auto_start {
            Some(b) => b,
            None => true,
        },
    };
    let auto_restart = match p.auto_restart {
        Some(b) => b,
        None => match raw.auto_restart {
            Some(b) => b,
            None => true,
        },
    };
    let grace_period = match p.grace_period {
        Some(v) => v,
        None => match raw.grace_period {
            Some(v) => v,
            None => 3000,
        },
    };
    let q = ProcessConfig {
        title: owned(p.title.as_str()),
        cmd,
        cwd,
        watch,
        watch_settle_time_ms: settle,
        mode,
        auto_start,
        auto_restart,
        grace_period,
    };
    assert(command_words(*raw, *p, builtins) == Some(views(q.cmd@)));
    assert(opt_view(q.cwd) == expand_opt(p.cwd, c));
    assert(views(q.watch@) == expand_all(watch_list(*p), c));
    Some(q)
}

/// The variables a configuration sees.
fn context(vars: &Option<StrMap<String>>, builtins: &StrMap<String>) -> (r: StrMap<String>)
    ensures
        r.str_map() == match *vars {
            Some(v) => builtins.str_map().union_prefer_right(v.str_map()),
            None => builtins.str_map(),
        },
{
    let mut ctx = builtins.clone_map();
    match vars {
        Some(v) => ctx.extend_from(v),
        None => {},
    }
    ctx
}

impl RawPinchConfig {
    /// Prepares every process: variables (the built-ins overridden by
    /// `vars`) are spliced as they are into paths and, before it is parsed,
    /// into the command line, so a value holding spaces gives several
    /// words unless the template quotes it; the command runs through
    /// `bash -c` or is split as a shell would, behind `docker-intrude` when
    /// the process has an address; unset settings take the global value,
    /// then the default.
    pub fn prepare(self, builtins: &StrMap<String>) -> (cfg: PinchConfig)
        requires
            all_ok(self, builtins.str_map()),
        ensures
            raw_prepared(cfg, self, builtins.str_map()),
    {
        let ghost b = builtins.str_map();
        let ctx = context(&self.vars, builtins);
        let mut processes: Vec<ProcessConfig> = Vec::new();
        let mut i: usize = 0;
        while i < self.processes.len()
            invariant
                i <= self.processes@.len(),
                all_ok(self, b),
                ctx.str_map() == context_of(self, b),
                processes@.len() == i,
                forall|j: int|
                    0 <= j < i ==> process_prepared(
                        #[trigger] processes@[j],
                        self,
                        self.processes@[j],
                        b,
                    ),
            decreases self.processes@.len() - i,
        {
            assert(process_ok(self, self.processes@[i as int], b));
            let q = build_process(&self, &self.processes[i], &ctx, Ghost(b)).unwrap();
            processes.push(q);
            i = i + 1;
        }
        let title = match self.title {
            Some(t) => t,
            None => owned("Process Supervisor"),
        };
        let layout = match self.layout {
            Some(l) => l,
            None => Vec::new(),
        };
        PinchConfig { title, processes, logs_max_size: self.logs_max_size, layout }
    }

    /// Prepares the configuration when every process can be prepared (each
    /// address comes with a network, locally or globally, and each command
    /// line splits), else `None`.
    pub fn try_prepare(self, builtins: &StrMap<String>) -> (r: Option<PinchConfig>)
        ensures
            r is Some <==> all_ok(self, builtins.str_map()),
            r is Some ==> raw_prepared(r->0, self, builtins.str_map()),
    {
        let ghost b = builtins.str_map();
        let ctx = context(&self.vars, builtins);
        let mut i: usize = 0;
        while i < self.processes.len()
            invariant
                b == builtins.str_map(),
                i <= self.processes@.len(),
                ctx.str_map() == context_of(self, b),
                forall|j: int| 0 <= j < i ==> process_ok(self, #[trigger] self.processes@[j], b),
            decreases self.processes@.len() - i,
        {
            if build_process(&self, &self.processes[i], &ctx, Ghost(b)).is_none() {
                assert(!process_ok(self, self.processes@[i as int], b));
                assert(!all_ok(self, b));
                return None;
            }
            i = i + 1;
        }
        Some(self.prepare(builtins))
    }
}

} // verus!
