use pinch::cli::{
    parse_args, parse_key_val, Cli, CliAction, Commands, ConfigurationCommand, ConfigurationSubcommand, NetCommand,
    NetworksSubcommand, ProcessCommand, ProcessesSubcommand, Shell,
};
use pinch::config::OutputFormat;
use pinch::handlers::{list_images, list_networks, list_processes, show_networks, show_processes, show_vars, used_containers};
use pinch::output::{format_command_args, render_list, render_map, render_single};
use pinch::schema::{DockerNetworkConfig, DockerRunConfig, PinchManifest, ProcessManifest, RunKind, RunManifest};
use pinch::vars::StrMap;

fn map(pairs: &[(&str, &str)]) -> StrMap<String> {
    let mut m = StrMap::new();
    for (k, v) in pairs {
        m.insert(k.to_string(), v.to_string());
    }
    m
}

fn process(name: &str, title: Option<&str>, run: RunManifest) -> ProcessManifest {
    ProcessManifest {
        name: name.to_string(),
        title: title.map(|t| t.to_string()),
        run,
        cwd: None,
        link: None,
        watch: None,
        watch_settle_time_ms: None,
        mode: None,
        auto_start: None,
        auto_restart: None,
        grace_period: None,
    }
}

fn docker(image: &str) -> RunManifest {
    RunManifest::Detailed(RunKind::Docker(DockerRunConfig {
        engine: None,
        name: None,
        image: image.to_string(),
        opts: None,
        args: None,
        network: None,
        ip: None,
        env: None,
        publish: None,
        mounts: None,
        volumes: None,
        remap_ids: None,
    }))
}

fn manifest() -> PinchManifest {
    let mut nets = StrMap::new();
    nets.insert("zeta".to_string(), DockerNetworkConfig::Simple("10.0.1.0/24".to_string()));
    nets.insert("alpha".to_string(), DockerNetworkConfig::Simple("10.0.0.0/24".to_string()));
    PinchManifest {
        schema_version: 1,
        name: "demo".to_string(),
        vars: Some(map(&[("tag", "16"), ("who", "world")])),
        processes: Some(vec![
            process("web", None, RunManifest::Shorthand("echo hello {{who}}".to_string())),
            process("db", Some("Database"), docker("postgres:{{tag}}")),
            process("cache", None, docker("redis")),
            process("db2", None, docker("postgres:{{tag}}")),
        ]),
        logs_max_size: None,
        auto_start: None,
        auto_restart: None,
        grace_period: None,
        shell: None,
        docker_networks: Some(nets),
        watch_settle_time_ms: None,
        layout: None,
    }
}

#[test]
fn key_val_splits_at_the_first_colon() {
    assert_eq!(parse_key_val("a:b:c"), Ok(("a".to_string(), "b:c".to_string())));
    assert_eq!(parse_key_val(":x"), Ok((String::new(), "x".to_string())));
    assert_eq!(parse_key_val("nocolon"), Err("Invalid --override format 'nocolon'. Expected key:value".to_string()));
}

#[test]
fn parsed_command_line() {
    let cli = Cli {
        config_file: "-".to_string(),
        overrides: vec![("a".to_string(), "1".to_string()), ("a".to_string(), "2".to_string())],
        command: None,
    };
    let p = parse_args(cli);
    assert_eq!(p.config_file, "/dev/stdin");
    assert_eq!(p.vars.len(), 1);
    assert_eq!(p.vars.get("a").map(|s| s.as_str()), Some("2"));
    assert!(matches!(p.action, CliAction::Tui));

    let cli = Cli {
        config_file: "pinch.yaml".to_string(),
        overrides: vec![],
        command: Some(Commands::Processes { command: ProcessesSubcommand::Run { title: "web".to_string(), background: true } }),
    };
    let p = parse_args(cli);
    assert_eq!(p.config_file, "pinch.yaml");
    assert!(matches!(p.action, CliAction::Process(ProcessCommand::Run { ref title, background: true }) if title == "web"));

    let cli = Cli {
        config_file: "x".to_string(),
        overrides: vec![],
        command: Some(Commands::Networks { command: NetworksSubcommand::Create { name: None } }),
    };
    assert!(matches!(parse_args(cli).action, CliAction::Networks(NetCommand::Create { name: None })));
    let cli = Cli {
        config_file: "x".to_string(),
        overrides: vec![],
        command: Some(Commands::Configuration { command: ConfigurationSubcommand::Init }),
    };
    assert!(matches!(parse_args(cli).action, CliAction::Configuration(ConfigurationCommand::Init)));
    let cli = Cli { config_file: "x".to_string(), overrides: vec![], command: Some(Commands::Completion { shell: Shell::Zsh }) };
    assert!(matches!(parse_args(cli).action, CliAction::Completion(Shell::Zsh)));
}

#[test]
fn lists_render_in_each_format() {
    let items = vec!["a".to_string(), "b".to_string()];
    assert_eq!(render_list(&items, None).unwrap(), "a\nb\n");
    assert_eq!(render_list(&items, Some(OutputFormat::Properties)).unwrap(), "a\nb\n");
    assert_eq!(render_list(&items, Some(OutputFormat::Yaml)).unwrap(), "- a\n- b\n");
    assert_eq!(render_list(&items, Some(OutputFormat::Json)).unwrap(), "[\n  \"a\",\n  \"b\"\n]\n");
}

#[test]
fn maps_render_in_each_format() {
    let entries = vec![("a".to_string(), "x".to_string()), ("b".to_string(), "y z".to_string())];
    assert_eq!(render_map(&entries, Some(OutputFormat::Raw)).unwrap(), "a\tx\nb\ty z\n");
    assert_eq!(render_map(&entries, Some(OutputFormat::Properties)).unwrap(), "a=x\nb=y z\n");
    assert_eq!(render_map(&entries, None).unwrap(), "a: x\nb: y z\n");
    assert_eq!(render_map(&entries, Some(OutputFormat::Json)).unwrap(), "{\n  \"a\": \"x\",\n  \"b\": \"y z\"\n}\n");
}

#[test]
fn single_values_render_in_each_format() {
    assert_eq!(render_single("x", None).unwrap(), "x\n");
    assert_eq!(render_single("x", Some(OutputFormat::Yaml)).unwrap(), "x\n");
    assert_eq!(render_single("x", Some(OutputFormat::Json)).unwrap(), "\"x\"\n");
}

#[test]
fn command_args_are_shell_quoted() {
    let args = vec!["echo".to_string(), "a b".to_string(), String::new(), "plain".to_string()];
    assert_eq!(format_command_args(args), "echo 'a b' '' plain");
}

#[test]
fn process_titles_are_listed_in_order() {
    let m = manifest();
    assert_eq!(list_processes(&m, None).unwrap(), "web\nDatabase\ncache\ndb2\n");
}

#[test]
fn variables_are_shown_one_or_all() {
    let m = manifest();
    let builtins = map(&[("pwd", "/w")]);
    let cli = map(&[("who", "you")]);
    assert_eq!(show_vars(&m, &builtins, &cli, Some("who"), None).unwrap(), "you\n");
    assert_eq!(
        show_vars(&m, &builtins, &cli, Some("nope"), None).unwrap_err(),
        "Variable 'nope' not found in configuration"
    );
    assert_eq!(
        show_vars(&m, &builtins, &cli, None, Some(OutputFormat::Properties)).unwrap(),
        "pwd=/w\ntag=16\nwho=you\n"
    );
}

#[test]
fn process_commands_are_shown_one_or_all() {
    let m = manifest();
    let none = StrMap::new();
    assert_eq!(show_processes(&m, &none, &none, Some("web"), None).unwrap(), "echo hello world\n");
    assert_eq!(
        show_processes(&m, &none, &none, Some("missing"), None).unwrap_err(),
        "Process with title 'missing' not found in configuration"
    );
    let all = show_processes(&m, &none, &none, None, Some(OutputFormat::Raw)).unwrap();
    assert_eq!(
        all,
        "Database\tdocker run -ti --rm --name db postgres:16\ncache\tdocker run -ti --rm --name cache redis\ndb2\tdocker run -ti --rm --name db2 postgres:16\nweb\techo hello world\n"
    );
}

#[test]
fn networks_are_listed_and_shown() {
    let m = manifest();
    let none = StrMap::new();
    assert_eq!(list_networks(&m, None).unwrap(), "zeta\nalpha\n");
    assert_eq!(
        show_networks(&m, &none, &none, Some("alpha"), None).unwrap(),
        "docker network create -o 'com.docker.network.bridge.name=alpha' --subnet 10.0.0.0/24 -d bridge alpha\n"
    );
    let all = show_networks(&m, &none, &none, None, Some(OutputFormat::Properties)).unwrap();
    assert!(all.starts_with("alpha=docker network create"));
    assert!(all.contains("\nzeta=docker network create"));
    assert_eq!(
        show_networks(&m, &none, &none, Some("nope"), None).unwrap_err(),
        "Network 'nope' not found in configuration"
    );
}

#[test]
fn images_are_listed_once_in_order() {
    let m = manifest();
    let vars = m.resolve_vars(&StrMap::new(), &StrMap::new());
    assert_eq!(used_containers(&m, &vars), vec!["postgres:16".to_string(), "redis".to_string()]);
    assert_eq!(list_images(&m, &StrMap::new(), &StrMap::new(), None).unwrap(), "postgres:16\nredis\n");
}

#[test]
fn launch_plan_finds_the_process_by_title() {
    let proc_cfg = |title: &str, cmd: Vec<&str>, mode: pinch::runners::RunMode| pinch::config::ProcessConfig {
        name: format!("{}-name", title),
        title: title.to_string(),
        cmd: cmd.into_iter().map(String::from).collect(),
        link: None,
        cwd: Some("/srv".to_string()),
        watch: vec![],
        watch_settle_time_ms: 800,
        mode: pinch::schema::PaneMode::Log,
        auto_start: true,
        auto_restart: true,
        grace_period: 3000,
        run_mode: mode,
    };
    let config = pinch::config::PinchConfig {
        title: "acme".into(),
        processes: vec![
            proc_cfg("web", vec!["npm", "run", "dev"], pinch::runners::RunMode::Spawn),
            proc_cfg("empty", vec![], pinch::runners::RunMode::Exec),
            proc_cfg("web", vec!["other"], pinch::runners::RunMode::Exec),
        ],
        logs_max_size: None,
        layout: vec![],
    };
    match pinch::handlers::launch_plan(&config, "web") {
        Ok(plan) => {
            assert_eq!(plan.program, "npm");
            assert_eq!(plan.args, vec!["run", "dev"]);
            assert_eq!(plan.cwd.as_deref(), Some("/srv"));
            assert_eq!(plan.run_mode, pinch::runners::RunMode::Spawn);
        }
        Err(e) => panic!("unexpected error {}", e),
    }
    match pinch::handlers::launch_plan(&config, "nope") {
        Err(e) => assert_eq!(e, "Process with title 'nope' not found in configuration"),
        Ok(_) => panic!("an unknown title must be refused"),
    }
    match pinch::handlers::launch_plan(&config, "empty") {
        Err(e) => assert_eq!(e, "Process command missing for: empty"),
        Ok(_) => panic!("a process without a command cannot be launched"),
    }
}

#[test]
fn overrides_beat_manifest_vars_which_beat_builtins() {
    let m = manifest();
    let builtins = map(&[("who", "builtin"), ("pwd", "/here"), ("tag", "b")]);
    let cli = map(&[("tag", "17")]);
    let vars = m.resolve_vars(&builtins, &cli);
    assert_eq!(vars.get("tag").map(String::as_str), Some("17"));
    assert_eq!(vars.get("who").map(String::as_str), Some("world"));
    assert_eq!(vars.get("pwd").map(String::as_str), Some("/here"));
    assert!(vars.get("missing").is_none());
}

#[test]
fn json_escapes_quotes_backslashes_and_control_characters() {
    assert_eq!(
        render_single("a\"b\\c\n\t\u{1}\u{1f}\u{8}\u{c}\r/é", Some(OutputFormat::Json)).unwrap(),
        "\"a\\\"b\\\\c\\n\\t\\u0001\\u001f\\b\\f\\r/é\"\n"
    );
}

#[test]
fn empty_collections_render_as_json_brackets() {
    assert_eq!(render_list(&vec![], Some(OutputFormat::Json)).unwrap(), "[]\n");
    assert_eq!(render_map(&vec![], Some(OutputFormat::Json)).unwrap(), "{}\n");
    let entries = vec![("k\"".to_string(), "v\n".to_string())];
    assert_eq!(render_map(&entries, Some(OutputFormat::Json)).unwrap(), "{\n  \"k\\\"\": \"v\\n\"\n}\n");
}
