use pinch::networks::{build_docker_network_command, select_networks};
use pinch::schema::{DockerNetworkConfig, PinchManifest};
use pinch::vars::StrMap;

fn manifest(networks: Option<Vec<(&str, DockerNetworkConfig)>>, vars: Option<Vec<(&str, &str)>>) -> PinchManifest {
    PinchManifest {
        schema_version: 1,
        name: "x".to_string(),
        vars: vars.map(|vs| {
            let mut m = StrMap::new();
            for (k, v) in vs {
                m.insert(k.to_string(), v.to_string());
            }
            m
        }),
        processes: None,
        logs_max_size: None,
        auto_start: None,
        auto_restart: None,
        grace_period: None,
        shell: None,
        docker_networks: networks.map(|ns| {
            let mut m = StrMap::new();
            for (k, c) in ns {
                m.insert(k.to_string(), c);
            }
            m
        }),
        watch_settle_time_ms: None,
        layout: None,
    }
}

fn simple(subnet: &str) -> DockerNetworkConfig {
    DockerNetworkConfig::Simple(subnet.to_string())
}

fn detailed(subnet: &str, args: Option<&str>) -> DockerNetworkConfig {
    DockerNetworkConfig::Detailed { subnet: subnet.to_string(), args: args.map(|a| a.to_string()) }
}

fn tail(cmd: &[String]) -> Vec<&str> {
    cmd[9..].iter().map(String::as_str).collect()
}

fn resolved(m: &PinchManifest) -> StrMap<String> {
    m.resolve_vars(&StrMap::new(), &StrMap::new())
}

#[test]
fn unknown_target_is_an_error_even_when_networks_are_defined() {
    let m = manifest(Some(vec![("hi", simple("172.18.23.0/24"))]), None);
    match select_networks(&m, Some("nope")) {
        Err(err) => assert_eq!(err, "Network 'nope' not found in configuration"),
        Ok(_) => panic!("an unknown network must be refused"),
    }
}

#[test]
fn unknown_target_is_an_error_when_no_networks_are_defined() {
    let m = manifest(None, None);
    assert!(select_networks(&m, Some("nope")).is_err());
}

#[test]
fn known_target_selects_only_that_network() {
    let m = manifest(Some(vec![("a", simple("10.0.0.0/24")), ("b", simple("10.0.1.0/24"))]), None);
    let sel = select_networks(&m, Some("b")).unwrap();
    assert_eq!(sel.len(), 1);
    assert_eq!(sel[0].0, "b");
    assert_eq!(sel[0].1.subnet(), "10.0.1.0/24");
}

#[test]
fn network_args_as_folded_string_are_shell_split_and_expanded() {
    let m = manifest(
        Some(vec![(
            "adv",
            detailed(
                "172.19.0.0/24",
                Some("--ipv6 --opt com.docker.network.bridge.enable_icc={{ icc }} --label 'a b'\n"),
            ),
        )]),
        Some(vec![("icc", "false")]),
    );
    let vars = resolved(&m);
    let nets = m.docker_networks.as_ref().unwrap();
    let cmd = build_docker_network_command("adv", nets.get("adv").unwrap(), &vars).unwrap();
    assert_eq!(tail(&cmd), vec!["--ipv6", "--opt", "com.docker.network.bridge.enable_icc=false", "--label", "a b", "adv"]);
}

#[test]
fn network_args_may_be_empty_or_absent() {
    let m = manifest(Some(vec![("adv", detailed("172.19.0.0/24", Some(""))), ("simple", simple("10.0.0.0/24"))]), None);
    let vars = resolved(&m);
    let nets = m.docker_networks.as_ref().unwrap();
    assert_eq!(tail(&build_docker_network_command("adv", nets.get("adv").unwrap(), &vars).unwrap()), vec!["adv"]);
    assert_eq!(tail(&build_docker_network_command("simple", nets.get("simple").unwrap(), &vars).unwrap()), vec!["simple"]);
}

#[test]
fn malformed_network_args_string_is_an_error() {
    let m = manifest(Some(vec![("adv", detailed("172.19.0.0/24", Some("--label 'oops")))]), None);
    let vars = resolved(&m);
    assert!(build_docker_network_command("adv", m.docker_networks.as_ref().unwrap().get("adv").unwrap(), &vars).is_err());
}

#[test]
fn no_target_selects_all_or_none() {
    let m = manifest(Some(vec![("a", simple("10.0.0.0/24")), ("b", simple("10.0.1.0/24"))]), None);
    assert_eq!(select_networks(&m, None).unwrap().len(), 2);
    let m = manifest(None, None);
    assert!(select_networks(&m, None).unwrap().is_empty());
}

#[test]
fn network_command_has_the_fixed_prefix() {
    let m = manifest(Some(vec![("n{{x}}", simple("10.{{x}}.0.0/16"))]), Some(vec![("x", "7")]));
    let vars = resolved(&m);
    let cmd = build_docker_network_command("n{{x}}", m.docker_networks.as_ref().unwrap().get("n{{x}}").unwrap(), &vars)
        .unwrap();
    assert_eq!(
        cmd,
        vec![
            "docker",
            "network",
            "create",
            "-o",
            "com.docker.network.bridge.name=n7",
            "--subnet",
            "10.7.0.0/16",
            "-d",
            "bridge",
            "n7"
        ]
    );
}

#[test]
fn create_networks_plans_one_job_per_selected_network() {
    let m = manifest(Some(vec![("a", simple("10.0.0.0/24")), ("b", detailed("10.0.1.0/24", Some("'bad")))]), None);
    let jobs = pinch::networks::create_networks(&m, &StrMap::new(), &StrMap::new(), None).unwrap();
    assert_eq!(jobs.len(), 2);
    assert_eq!(jobs[0].name, "a");
    assert!(jobs[0].create_command.is_ok());
    assert!(jobs[1].create_command.is_err());
    assert!(pinch::networks::create_networks(&m, &StrMap::new(), &StrMap::new(), Some("zz")).is_err());
}
