//! The manifest (`pinch.yaml`) as the library models it.
use vstd::prelude::*;
use crate::vars::StrMap;

verus! {

/// Shell used to run a command string with `-c`.
#[derive(Debug, Clone, Copy, PartialEq, Eq, Structural)]
pub enum WrappingShell {
    Bash,
    Zsh,
    Fish,
}

/// Root configuration manifest for a project (`pinch.yaml`).
pub struct PinchManifest {
    /// Explicit schema version for manifest compatibility (must be 1).
    pub schema_version: u32,
    /// Name of the project.
    pub name: String,
    /// Custom variables available for `{{var_name}}` expansion.
    pub vars: Option<StrMap<String>>,
    /// Supervised processes, containers and background services.
    pub processes: Option<Vec<ProcessManifest>>,
    /// Maximum number of log lines retained per process pane.
    pub logs_max_size: Option<usize>,
    /// Whether processes start on launch (default `true`).
    pub auto_start: Option<bool>,
    /// Whether processes restart after exiting (default `true`).
    pub auto_restart: Option<bool>,
    /// Delay in milliseconds before an automatic restart (default `3000`).
    pub grace_period: Option<u64>,
    /// Shell used for every command when present.
    pub shell: Option<WrappingShell>,
    /// Docker bridge networks managed by the supervisor.
    pub docker_networks: Option<StrMap<DockerNetworkConfig>>,
    /// Debounce delay in milliseconds for file watching (default `800`).
    pub watch_settle_time_ms: Option<u64>,
    /// Edge-carving layout rules for the process panes.
    pub layout: Option<Vec<LayoutNode>>,
}

/// One supervised process or container.
pub struct ProcessManifest {
    /// Name of the process.
    pub name: String,
    /// Display name of the pane (defaults to `name`).
    pub title: Option<String>,
    /// How the command or container is spawned.
    pub run: RunManifest,
    /// Working directory (supports variable expansion).
    pub cwd: Option<String>,
    /// Web URL or link associated with the process.
    pub link: Option<String>,
    /// Paths whose changes restart the process.
    pub watch: Option<Vec<String>>,
    /// Per-process debounce delay for file watching.
    pub watch_settle_time_ms: Option<u64>,
    /// Display mode of the pane (`log` or `tui`).
    pub mode: Option<PaneMode>,
    /// Per-process auto-start override.
    pub auto_start: Option<bool>,
    /// Per-process auto-restart override.
    pub auto_restart: Option<bool>,
    /// Per-process grace period override.
    pub grace_period: Option<u64>,
}

/// How the command of a process is written.
pub enum RunManifest {
    /// A command string run as a local process.
    Shorthand(String),
    /// An explicit run configuration.
    Detailed(RunKind),
}

/// Explicit runtime of a process.
pub enum RunKind {
    /// A local OS process.
    Process(ProcessRunConfig),
    /// A container run with `docker run --rm` (or podman).
    Docker(DockerRunConfig),
    /// A host binary run inside a Docker network namespace.
    DockerIntrude(DockerIntrudeRunConfig),
}

/// A local OS process.
pub struct ProcessRunConfig {
    /// Shell wrapping the command when present.
    pub shell: Option<WrappingShell>,
    /// The command string.
    pub cmd: String,
    /// Directories remapped through docker-bluff (`SRC[:DST]`).
    pub remap_paths: Option<Vec<String>>,
    /// Id swaps applied by docker-bluff (`[u:|g:]DISK:SEEN`).
    pub remap_ids: Option<Vec<String>>,
}

/// Container engine binary.
#[derive(Debug, Clone, Copy, PartialEq, Eq, Structural)]
pub enum ContainerEngine {
    Docker,
    Podman,
}

/// A container run.
pub struct DockerRunConfig {
    /// Engine running the image (default docker).
    pub engine: Option<ContainerEngine>,
    /// Container name (defaults to the process name).
    pub name: Option<String>,
    /// Image reference.
    pub image: String,
    /// Raw flags appended after the rendered ones (shell-style string).
    pub opts: Option<String>,
    /// Arguments passed to the entrypoint (shell-style string).
    pub args: Option<String>,
    /// Network (`--network`; empty values ignored).
    pub network: Option<String>,
    /// Static IP (`--ip`; empty values ignored).
    pub ip: Option<String>,
    /// Environment variables (`--env KEY=value`).
    pub env: Option<StrMap<String>>,
    /// Published ports (`-p`; empty entries ignored).
    pub publish: Option<Vec<String>>,
    /// Mounts (`--mount`).
    pub mounts: Option<Vec<DockerMountConfig>>,
    /// Volumes (`--volume`; empty entries ignored).
    pub volumes: Option<Vec<String>>,
    /// Id swaps applied by docker-bluff to the run's mounts.
    pub remap_ids: Option<Vec<String>>,
}

/// One container mount.
pub struct DockerMountConfig {
    /// Mount type (default `bind`).
    pub mount_type: Option<String>,
    /// Source path.
    pub source: String,
    /// Target path (defaults to the source).
    pub target: Option<String>,
    /// Read-only mount (default `true`).
    pub readonly: Option<bool>,
    /// Create the bind source on the host (`bind-create-src`, default `false`).
    pub create: Option<bool>,
    /// Comma-separated extra mount options.
    pub opts: Option<String>,
}

/// A host binary run inside a Docker network namespace.
pub struct DockerIntrudeRunConfig {
    /// Static IP in the network namespace.
    pub ip: String,
    /// Target network (optional when exactly one network is defined).
    pub network: Option<String>,
    /// Shell wrapping the command when present.
    pub shell: Option<WrappingShell>,
    /// The command string.
    pub cmd: String,
    /// Directories remapped through docker-bluff.
    pub remap_paths: Option<Vec<String>>,
    /// Id swaps applied by docker-bluff.
    pub remap_ids: Option<Vec<String>>,
}

/// A Docker bridge network.
pub enum DockerNetworkConfig {
    /// Just the subnet (CIDR).
    Simple(String),
    /// Subnet and extra `docker network create` flags (shell-style string).
    Detailed { subnet: String, args: Option<String> },
}

impl DockerNetworkConfig {
    /// The subnet of the network.
    pub fn subnet(&self) -> (r: &str)
        ensures
            r@ == match self {
                DockerNetworkConfig::Simple(s) => s@,
                DockerNetworkConfig::Detailed { subnet, .. } => subnet@,
            },
    {
        match self {
            DockerNetworkConfig::Simple(s) => s.as_str(),
            DockerNetworkConfig::Detailed { subnet, .. } => subnet.as_str(),
        }
    }

    /// The extra creation flags, if any.
    pub fn args(&self) -> (r: Option<&str>)
        ensures
            match self {
                DockerNetworkConfig::Simple(_) => r.is_none(),
                DockerNetworkConfig::Detailed { args, .. } => match args {
                    Some(a) => r.is_some() && r.unwrap()@ == a@,
                    None => r.is_none(),
                },
            },
    {
        match self {
            DockerNetworkConfig::Simple(_) => None,
            DockerNetworkConfig::Detailed { args, .. } => match args {
                Some(a) => Some(a.as_str()),
                None => None,
            },
        }
    }
}

/// Display mode of a process pane.
#[derive(Debug, Clone, Copy, PartialEq, Eq, Structural)]
pub enum PaneMode {
    Log,
    Tui,
}

/// A recursive edge-carving and splitting node arranging the panes.
pub struct LayoutNode {
    /// Side of the remaining space to carve from.
    pub edge: Option<LayoutEdge>,
    /// Percentage of the available space (0 to 100).
    pub size: Option<u16>,
    /// Split orientation of the children.
    pub direction: Option<LayoutDirection>,
    /// Process name (or `combined-logs`) placed in this node.
    pub name: Option<String>,
    /// Whether this node holds the panes no node names.
    pub unassigned: Option<bool>,
    /// Child nodes.
    pub items: Option<Vec<LayoutNode>>,
}

/// Edge of the remaining space to carve from.
#[derive(Debug, Clone, Copy, PartialEq, Eq, Structural)]
pub enum LayoutEdge {
    Top,
    Bottom,
    Left,
    Right,
}

/// Split orientation of child panes.
#[derive(Debug, Clone, Copy, PartialEq, Eq, Structural)]
pub enum LayoutDirection {
    Horizontal,
    Vertical,
}

} // verus!

verus! {

/// A layout node as a value: children by value too.
pub struct LayoutSpec {
    pub edge: Option<LayoutEdge>,
    pub size: Option<u16>,
    pub direction: Option<LayoutDirection>,
    pub name: Option<Seq<char>>,
    pub unassigned: Option<bool>,
    pub items: Option<Seq<LayoutSpec>>,
}

/// A node by value.
pub open spec fn node_view(n: LayoutNode) -> LayoutSpec
    decreases n,
{
    LayoutSpec {
        edge: n.edge,
        size: n.size,
        direction: n.direction,
        name: match n.name {
            Some(s) => Some(s@),
            None => None,
        },
        unassigned: n.unassigned,
        items: match n.items {
            Some(v) => Some(nodes_view(v@)),
            None => None,
        },
    }
}

/// Nodes by value.
pub open spec fn nodes_view(s: Seq<LayoutNode>) -> Seq<LayoutSpec>
    decreases s,
{
    if s.len() == 0 {
        Seq::empty()
    } else {
        nodes_view(s.drop_last()).push(node_view(s.last()))
    }
}

/// An independent copy of an optional string.
pub fn copy_opt_string(o: &Option<String>) -> (r: Option<String>)
    ensures
        r == *o,
{
    match o {
        Some(s) => Some(s.clone()),
        None => None,
    }
}

impl LayoutNode {
    /// An independent copy of the node and its children.
    pub fn duplicate(&self) -> (r: LayoutNode)
        ensures
            node_view(r) == node_view(*self),
        decreases self,
    {
        let items = match &self.items {
            Some(v) => Some(duplicate_nodes(v)),
            None => None,
        };
        LayoutNode {
            edge: self.edge,
            size: self.size,
            direction: self.direction,
            name: copy_opt_string(&self.name),
            unassigned: self.unassigned,
            items,
        }
    }
}

/// An independent copy of a list of nodes.
pub fn duplicate_nodes(v: &Vec<LayoutNode>) -> (r: Vec<LayoutNode>)
    ensures
        nodes_view(r@) == nodes_view(v@),
    decreases v,
{
    let mut out: Vec<LayoutNode> = Vec::new();
    let mut i: usize = 0;
    assert(v@.take(0) =~= Seq::<LayoutNode>::empty());
    while i < v.len()
        invariant
            i <= v@.len(),
            nodes_view(out@) == nodes_view(v@.take(i as int)),
        decreases v@.len() - i,
    {
        proof {
            assert(decreases_to!(v => v@));
            assert(decreases_to!(v@ => v@[i as int]));
        }
        let n = v[i].duplicate();
        let ghost before = out@;
        out.push(n);
        assert(out@.drop_last() == before);
        assert(v@.take(i + 1).drop_last() == v@.take(i as int));
        i = i + 1;
    }
    assert(v@.take(v@.len() as int) =~= v@);
    out
}

} // verus!
