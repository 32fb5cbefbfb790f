use pinch::runners::{RunBuilder, RunContext, RunMode};
use pinch::schema::{DockerNetworkConfig, ProcessRunConfig, RunKind, RunManifest, WrappingShell};
use pinch::vars::StrMap;

fn vars(pairs: &[(&str, &str)]) -> StrMap<String> {
    let mut m = StrMap::new();
    for (k, v) in pairs {
        m.insert(k.to_string(), v.to_string());
    }
    m
}

fn build(cmd: &str, shell: Option<WrappingShell>, vars: &StrMap<String>) -> Vec<String> {
    let networks: StrMap<DockerNetworkConfig> = StrMap::new();
    let ctx = RunContext {
        name: "test",
        vars,
        global_shell: None,
        default_docker_network: None,
        defined_networks: &networks,
        background: false,
    };
    let run = RunManifest::Detailed(RunKind::Process(ProcessRunConfig {
        shell,
        cmd: cmd.to_string(),
        remap_paths: None,
        remap_ids: None,
    }));
    run.build_command(&ctx).expect("command builds").cmd
}

#[test]
fn var_with_spaces_expands_to_several_argv_tokens() {
    let v = vars(&[("target", "8.8.8.8"), ("flags", "-c 10")]);
    assert_eq!(build("ping {{ target }} {{ flags }}", None, &v), vec!["ping", "8.8.8.8", "-c", "10"]);
}

#[test]
fn quoting_the_placeholder_keeps_value_as_one_token() {
    let v = vars(&[("dir", "/path with spaces")]);
    assert_eq!(build(r#"ls "{{ dir }}""#, None, &v), vec!["ls", "/path with spaces"]);
    assert_eq!(build("ls '{{ dir }}'", None, &v), vec!["ls", "/path with spaces"]);
}

#[test]
fn quotes_inside_var_value_are_parsed_like_inline_quotes() {
    let v = vars(&[(
        "spring_debug_opts",
        "-Dspring-boot.run.jvmArguments='-agentlib:jdwp=transport=dt_socket,server=y,suspend=n,address=*:8787'",
    )]);
    assert_eq!(
        build("mvn spring-boot:run {{ spring_debug_opts }}", None, &v),
        vec![
            "mvn",
            "spring-boot:run",
            "-Dspring-boot.run.jvmArguments=-agentlib:jdwp=transport=dt_socket,server=y,suspend=n,address=*:8787",
        ]
    );
}

#[test]
fn var_containing_double_quote_no_longer_breaks_parsing() {
    let v = vars(&[("q", r#"say\"hi"#)]);
    assert_eq!(build("echo {{ q }}", None, &v), vec!["echo", r#"say"hi"#]);
}

#[test]
fn shell_mode_passes_expanded_text_verbatim() {
    let v = vars(&[("flags", "-c 10")]);
    assert_eq!(
        build("ping {{ flags }} 8.8.8.8", Some(WrappingShell::Bash), &v),
        vec!["bash", "-c", "ping -c 10 8.8.8.8"]
    );
}

#[test]
fn plain_processes_have_no_container_reference() {
    let v = vars(&[]);
    let networks: StrMap<DockerNetworkConfig> = StrMap::new();
    let ctx = RunContext {
        name: "test",
        vars: &v,
        global_shell: None,
        default_docker_network: None,
        defined_networks: &networks,
        background: false,
    };
    let run = RunManifest::Shorthand("true".to_string());
    assert!(run.build_command(&ctx).unwrap().container.is_none());
}

#[test]
fn unknown_var_is_left_verbatim() {
    let v = vars(&[]);
    assert_eq!(build("echo {{ nope }}", None, &v), vec!["echo", "{{", "nope", "}}"]);
}

#[test]
fn background_runs_spawn_and_foreground_runs_exec() {
    let v = vars(&[]);
    let networks: StrMap<DockerNetworkConfig> = StrMap::new();
    let mut ctx = RunContext {
        name: "test",
        vars: &v,
        global_shell: None,
        default_docker_network: None,
        defined_networks: &networks,
        background: true,
    };
    let run = RunManifest::Shorthand("true".to_string());
    assert_eq!(run.build_command(&ctx).unwrap().run_mode, RunMode::Spawn);
    ctx.background = false;
    assert_eq!(run.build_command(&ctx).unwrap().run_mode, RunMode::Exec);
}

#[test]
fn global_shell_wraps_a_shorthand_command() {
    let v = vars(&[]);
    let networks: StrMap<DockerNetworkConfig> = StrMap::new();
    let ctx = RunContext {
        name: "test",
        vars: &v,
        global_shell: Some(WrappingShell::Zsh),
        default_docker_network: None,
        defined_networks: &networks,
        background: false,
    };
    let run = RunManifest::Shorthand("echo hi".to_string());
    assert_eq!(run.build_command(&ctx).unwrap().cmd, vec!["zsh", "-c", "echo hi"]);
}

#[test]
fn unterminated_quote_is_an_error() {
    let v = vars(&[]);
    let networks: StrMap<DockerNetworkConfig> = StrMap::new();
    let ctx = RunContext {
        name: "test",
        vars: &v,
        global_shell: None,
        default_docker_network: None,
        defined_networks: &networks,
        background: false,
    };
    let run = RunManifest::Shorthand("echo 'oops".to_string());
    assert!(run.build_command(&ctx).is_err());
}
