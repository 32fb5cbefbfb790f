use pinch::runners::docker::render_mount;
use pinch::runners::{RunBuilder, RunContext};
use pinch::schema::{ContainerEngine, DockerMountConfig, DockerNetworkConfig, DockerRunConfig};
use pinch::vars::StrMap;

fn docker_cfg(image: &str) -> DockerRunConfig {
    DockerRunConfig {
        engine: None,
        name: None,
        image: image.to_string(),
        opts: None,
        args: None,
        network: None,
        ip: None,
        env: None,
        publish: None,
        mounts: None,
        volumes: None,
        remap_ids: None,
    }
}

fn mount(source: &str) -> DockerMountConfig {
    DockerMountConfig { mount_type: None, source: source.to_string(), target: None, readonly: None, create: None, opts: None }
}

fn strs(items: &[&str]) -> Vec<String> {
    items.iter().map(|s| s.to_string()).collect()
}

fn vars(pairs: &[(&str, &str)]) -> StrMap<String> {
    let mut m = StrMap::new();
    for (k, v) in pairs {
        m.insert(k.to_string(), v.to_string());
    }
    m
}

fn build(cfg: &DockerRunConfig, vars: &StrMap<String>) -> Vec<String> {
    let networks: StrMap<DockerNetworkConfig> = StrMap::new();
    let ctx = RunContext {
        name: "test",
        vars,
        global_shell: None,
        default_docker_network: None,
        defined_networks: &networks,
        background: false,
    };
    cfg.build_command(&ctx).unwrap().cmd
}

#[test]
fn defaults_to_single_defined_docker_network() {
    let vars: StrMap<String> = StrMap::new();
    let default_network = "hi".to_string();
    let networks: StrMap<DockerNetworkConfig> = StrMap::new();
    let context = RunContext {
        name: "test",
        vars: &vars,
        global_shell: None,
        default_docker_network: Some(&default_network),
        defined_networks: &networks,
        background: false,
    };
    let cfg = docker_cfg("i");
    let out = cfg.build_command(&context).unwrap().cmd;
    assert_eq!(out, vec!["docker", "run", "-ti", "--rm", "--name", "test", "--network", "hi", "i"]);

    let mut cfg = docker_cfg("i");
    cfg.network = Some("other".to_string());
    let out = cfg.build_command(&context).unwrap().cmd;
    assert_eq!(out, vec!["docker", "run", "-ti", "--rm", "--name", "test", "--network", "other", "i"]);
}

#[test]
fn builds_minimal_docker_run() {
    let out = build(&docker_cfg("nginx:alpine"), &vars(&[]));
    assert_eq!(out, vec!["docker", "run", "-ti", "--rm", "--name", "test", "nginx:alpine"]);
}

#[test]
fn uses_explicit_container_name_when_provided() {
    let mut cfg = docker_cfg("i");
    cfg.name = Some("hi-nginx".to_string());
    let out = build(&cfg, &vars(&[]));
    assert_eq!(&out[4..6], &["--name", "hi-nginx"]);
}

#[test]
fn renders_all_flags_in_bundle_order() {
    let mut cfg = docker_cfg("nginx:alpine");
    cfg.name = Some("hi-nginx".to_string());
    cfg.network = Some("hi".to_string());
    cfg.ip = Some("172.18.23.10".to_string());
    cfg.env = Some(vars(&[("TZ", "Europe/Rome"), ("A", "1")]));
    cfg.publish = Some(strs(&["0.0.0.0:8888:8888", ""]));
    cfg.mounts = Some(vec![
        DockerMountConfig {
            mount_type: None,
            source: "/opt/conf/nginx.conf".to_string(),
            target: Some("/etc/nginx/nginx.conf".to_string()),
            readonly: None,
            create: None,
            opts: None,
        },
        DockerMountConfig {
            mount_type: Some("volume".to_string()),
            source: "data".to_string(),
            target: Some("/data".to_string()),
            readonly: Some(false),
            create: None,
            opts: Some("ro-copy".to_string()),
        },
    ]);
    cfg.volumes = Some(strs(&["mydata:/var/lib/app", ""]));
    cfg.opts = Some("--log-driver=none".to_string());
    cfg.args = Some("nginx -g 'daemon off;'".to_string());
    let out = build(&cfg, &vars(&[]));
    assert_eq!(
        out,
        vec![
            "docker",
            "run",
            "-ti",
            "--rm",
            "--name",
            "hi-nginx",
            "--network",
            "hi",
            "--ip",
            "172.18.23.10",
            "--env",
            "A=1",
            "--env",
            "TZ=Europe/Rome",
            "-p",
            "0.0.0.0:8888:8888",
            "--mount",
            "type=bind,source=/opt/conf/nginx.conf,target=/etc/nginx/nginx.conf,readonly",
            "--mount",
            "type=volume,source=data,target=/data,ro-copy",
            "--volume",
            "mydata:/var/lib/app",
            "--log-driver=none",
            "nginx:alpine",
            "nginx",
            "-g",
            "daemon off;"
        ]
    );
}

#[test]
fn uses_podman_engine() {
    let mut cfg = docker_cfg("registry.example.com/my-app:2");
    cfg.engine = Some(ContainerEngine::Podman);
    let out = build(&cfg, &vars(&[]));
    assert_eq!(out.first().unwrap(), "podman");
}

#[test]
fn expands_vars_and_drops_empty_flags() {
    let v = vars(&[("net", ""), ("img", "nginx:alpine")]);
    let mut cfg = docker_cfg("{{img}}");
    cfg.network = Some("{{net}}".to_string());
    cfg.ip = Some(" {{net}} ".to_string());
    let out = build(&cfg, &v);
    assert_eq!(out, vec!["docker", "run", "-ti", "--rm", "--name", "test", "nginx:alpine"]);
}

#[test]
fn mount_target_defaults_to_source() {
    let v: StrMap<String> = StrMap::new();
    assert_eq!(render_mount(&mount("/data"), &v).unwrap(), "type=bind,source=/data,target=/data,readonly");
}

#[test]
fn network_flags_render_in_declaration_order() {
    let mut cfg = docker_cfg("i");
    cfg.ip = Some("10.0.0.2".to_string());
    cfg.network = Some("net1".to_string());
    let out = build(&cfg, &vars(&[]));
    assert_eq!(out, vec!["docker", "run", "-ti", "--rm", "--name", "test", "--network", "net1", "--ip", "10.0.0.2", "i"]);
}

#[test]
fn preserves_spaces_in_structured_field_values() {
    let v = vars(&[("msg", "hello world"), ("conf", "/opt/my app/nginx.conf")]);
    let mut cfg = docker_cfg("i");
    cfg.env = Some(vars(&[("MSG", "{{msg}}")]));
    cfg.mounts = Some(vec![mount("{{conf}}")]);
    cfg.volumes = Some(strs(&["{{msg}}:/data"]));
    let out = build(&cfg, &v);
    assert!(out.contains(&"MSG=hello world".to_string()));
    assert!(out.contains(&"type=bind,source=/opt/my app/nginx.conf,target=/opt/my app/nginx.conf,readonly".to_string()));
    assert!(out.contains(&"hello world:/data".to_string()));
}

#[test]
fn shell_quotes_in_opts_and_args_are_parsed() {
    let mut cfg = docker_cfg("i");
    cfg.opts = Some("--name 'hi nginx'".to_string());
    cfg.args = Some("nginx -g 'daemon off;'".to_string());
    let out = build(&cfg, &vars(&[]));
    assert!(out.contains(&"hi nginx".to_string()));
    assert_eq!(&out[out.len() - 3..], &["nginx", "-g", "daemon off;"]);
}

#[test]
fn create_flag_adds_bind_create_src() {
    let v: StrMap<String> = StrMap::new();
    let mut m = mount("/srv/cache");
    m.create = Some(true);
    m.readonly = Some(false);
    assert_eq!(render_mount(&m, &v).unwrap(), "type=bind,source=/srv/cache,target=/srv/cache,bind-create-src");
}

#[test]
fn malformed_opts_are_an_error() {
    let mut cfg = docker_cfg("i");
    cfg.opts = Some("--label 'oops".to_string());
    let networks: StrMap<DockerNetworkConfig> = StrMap::new();
    let v: StrMap<String> = StrMap::new();
    let ctx = RunContext {
        name: "test",
        vars: &v,
        global_shell: None,
        default_docker_network: None,
        defined_networks: &networks,
        background: false,
    };
    assert!(cfg.build_command(&ctx).is_err());
}

#[test]
fn docker_build_names_the_container() {
    let mut cfg = docker_cfg("i");
    cfg.engine = Some(ContainerEngine::Podman);
    cfg.name = Some("box".to_string());
    let networks: StrMap<DockerNetworkConfig> = StrMap::new();
    let v: StrMap<String> = StrMap::new();
    let ctx = RunContext {
        name: "test",
        vars: &v,
        global_shell: None,
        default_docker_network: None,
        defined_networks: &networks,
        background: false,
    };
    let out = cfg.build_command(&ctx).unwrap();
    let c = out.container.expect("container reference");
    assert_eq!(c.engine, ContainerEngine::Podman);
    assert_eq!(c.name, "box");
}
