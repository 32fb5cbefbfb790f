use pinch::raw_config::{RawPinchConfig, RawProcessConfig};
use pinch::schema::PaneMode;
use pinch::vars::StrMap;

fn map(pairs: &[(&str, &str)]) -> StrMap<String> {
    let mut m = StrMap::new();
    for (k, v) in pairs {
        m.insert(k.to_string(), v.to_string());
    }
    m
}

fn raw_process(title: &str, cmd: &str) -> RawProcessConfig {
    RawProcessConfig {
        title: title.to_string(),
        cmd: cmd.to_string(),
        cwd: None,
        watch: None,
        watch_settle_time_ms: None,
        mode: None,
        auto_start: None,
        auto_restart: None,
        grace_period: None,
        shell: None,
        docker_network: None,
        docker_ip: None,
    }
}

fn raw_config(processes: Vec<RawProcessConfig>) -> RawPinchConfig {
    RawPinchConfig {
        title: None,
        vars: None,
        processes,
        logs_max_size: None,
        auto_start: None,
        auto_restart: None,
        grace_period: None,
        shell: None,
        docker_network: None,
        watch_settle_time_ms: None,
        layout: None,
    }
}

fn words(v: &[&str]) -> Vec<String> {
    v.iter().map(|s| s.to_string()).collect()
}

#[test]
fn prepare_splices_values_before_splitting_the_command() {
    let mut raw = raw_config(vec![raw_process("greeter", "  echo {{ greet }} {{who}}  ")]);
    raw.vars = Some(map(&[("greet", "hi"), ("who", "big world")]));
    let cfg = raw.prepare(&map(&[]));
    assert_eq!(cfg.title, "Process Supervisor");
    assert_eq!(cfg.logs_max_size, None);
    assert!(cfg.layout.is_empty());
    let p = &cfg.processes[0];
    assert_eq!(p.title, "greeter");
    assert_eq!(p.cmd, words(&["echo", "hi", "big", "world"]));
    assert_eq!(p.cwd, None);
    assert!(p.watch.is_empty());
    assert_eq!(p.watch_settle_time_ms, 800);
    assert_eq!(p.mode, PaneMode::Log);
    assert!(p.auto_start && p.auto_restart);
    assert_eq!(p.grace_period, 3000);
}

#[test]
fn prepare_runs_through_bash_with_the_global_shell() {
    let mut raw = raw_config(vec![raw_process("list", "ls {{dir}}")]);
    raw.shell = Some(true);
    raw.title = Some("Mine".to_string());
    let cfg = raw.prepare(&map(&[("dir", "my dir")]));
    assert_eq!(cfg.title, "Mine");
    assert_eq!(cfg.processes[0].cmd, words(&["bash", "-c", "ls my dir"]));
}

#[test]
fn prepare_wraps_addressed_processes_in_docker_intrude() {
    let mut p = raw_process("Web_API!", "serve --port 80");
    p.docker_ip = Some("10.0.0.5".to_string());
    let mut raw = raw_config(vec![p]);
    raw.docker_network = Some("net1".to_string());
    let cfg = raw.prepare(&map(&[]));
    assert_eq!(
        cfg.processes[0].cmd,
        words(&["docker-intrude", "--name", "pinch-ns-web-api", "--net", "net1", "--ip", "10.0.0.5", "--", "serve", "--port", "80"])
    );
}

#[test]
fn prepare_expands_paths_verbatim_and_prefers_process_settings() {
    let mut p = raw_process("w", "run");
    p.cwd = Some("{{pwd}}/app".to_string());
    p.watch = Some(vec!["{{pwd}}/src".to_string(), "static".to_string()]);
    p.watch_settle_time_ms = Some(50);
    p.mode = Some(PaneMode::Tui);
    p.auto_restart = Some(true);
    p.docker_network = Some("own".to_string());
    let mut raw = raw_config(vec![p, raw_process("x", "true")]);
    raw.auto_start = Some(false);
    raw.auto_restart = Some(false);
    raw.grace_period = Some(10);
    raw.watch_settle_time_ms = Some(200);
    raw.vars = Some(map(&[("pwd", "/my home")]));
    let cfg = raw.prepare(&map(&[("pwd", "/root")]));
    let w = &cfg.processes[0];
    assert_eq!(w.cwd, Some("/my home/app".to_string()));
    assert_eq!(w.watch, words(&["/my home/src", "static"]));
    assert_eq!(w.watch_settle_time_ms, 50);
    assert_eq!(w.mode, PaneMode::Tui);
    assert!(!w.auto_start && w.auto_restart);
    assert_eq!(w.grace_period, 10);
    assert_eq!(w.cmd, words(&["run"]));
    let x = &cfg.processes[1];
    assert_eq!(x.watch_settle_time_ms, 200);
    assert!(!x.auto_restart);
}

#[test]
fn try_prepare_refuses_an_address_without_a_network() {
    let mut p = raw_process("db", "postgres");
    p.docker_ip = Some("10.0.0.2".to_string());
    assert!(raw_config(vec![p]).try_prepare(&map(&[])).is_none());
}

#[test]
fn try_prepare_refuses_an_unterminated_quote() {
    assert!(raw_config(vec![raw_process("bad", "echo 'open")]).try_prepare(&map(&[])).is_none());
    let ok = raw_config(vec![raw_process("good", "echo 'closed'")]).try_prepare(&map(&[])).unwrap();
    assert_eq!(ok.processes[0].cmd, words(&["echo", "closed"]));
}

#[test]
fn prepare_keeps_a_quoted_placeholder_as_one_word() {
    let mut raw = raw_config(vec![raw_process("ping", "ping {{ target }} {{ flags }} \"{{ note }}\"")]);
    raw.vars = Some(map(&[("target", "8.8.8.8"), ("flags", "-c 10"), ("note", "a b")]));
    let cfg = raw.prepare(&map(&[]));
    assert_eq!(cfg.processes[0].cmd, words(&["ping", "8.8.8.8", "-c", "10", "a b"]));
}
