use pinch::runners::remap::{validate_id_spec, validate_path_spec};
use pinch::runners::wrap_with_docker_bluff;
use pinch::vars::StrMap;

fn vars(pairs: &[(&str, &str)]) -> StrMap<String> {
    let mut m = StrMap::new();
    for (k, v) in pairs {
        m.insert(k.to_string(), v.to_string());
    }
    m
}

fn list(items: &[&str]) -> Vec<String> {
    items.iter().map(|s| s.to_string()).collect()
}

#[test]
fn without_remap_ids_the_command_is_returned_unchanged() {
    let cmd = vec!["make".to_string()];
    assert_eq!(wrap_with_docker_bluff(cmd.clone(), None, None, &vars(&[]), "p").unwrap(), cmd);
}

#[test]
fn empty_remap_ids_is_rejected() {
    let cmd = vec!["make".to_string()];
    assert!(wrap_with_docker_bluff(cmd, Some(&[]), None, &vars(&[]), "p").is_err());
}

#[test]
fn remap_paths_without_remap_ids_is_rejected() {
    let cmd = vec!["make".to_string()];
    let paths = list(&["/srv"]);
    assert!(wrap_with_docker_bluff(cmd, None, Some(&paths), &vars(&[]), "p").is_err());
}

#[test]
fn remap_ids_without_paths_wraps_with_only_id_flags() {
    let ids = list(&["me:0"]);
    let cmd = vec!["docker".to_string(), "run".to_string(), "alpine".to_string()];
    let out = wrap_with_docker_bluff(cmd, Some(&ids), None, &vars(&[]), "d").expect("wraps");
    assert_eq!(out, vec!["docker-bluff", "--id", "me:0", "--", "docker", "run", "alpine"]);
}

#[test]
fn prefixes_docker_bluff_with_ids_and_paths_then_the_command() {
    let ids = list(&["me:0"]);
    let paths = list(&["/srv/data"]);
    let out = wrap_with_docker_bluff(
        vec!["make".to_string(), "build".to_string()],
        Some(&ids),
        Some(&paths),
        &vars(&[]),
        "build",
    )
    .expect("wraps");
    assert_eq!(out, vec!["docker-bluff", "--id", "me:0", "--map", "/srv/data", "--", "make", "build"]);
}

#[test]
fn preserves_a_shell_wrapped_command_after_the_separator() {
    let cmd = vec!["bash".to_string(), "-c".to_string(), "cargo build && ls".to_string()];
    let ids = list(&["me:0"]);
    let paths = list(&["/w"]);
    let out = wrap_with_docker_bluff(cmd, Some(&ids), Some(&paths), &vars(&[]), "build").expect("wraps");
    assert_eq!(
        out,
        vec!["docker-bluff", "--id", "me:0", "--map", "/w", "--", "bash", "-c", "cargo build && ls"]
    );
}

#[test]
fn several_id_swaps_and_paths_each_get_their_own_flag() {
    let ids = list(&["u:0:33", "g:0:33"]);
    let paths = list(&["/a", "/b:/c"]);
    let out = wrap_with_docker_bluff(vec!["true".to_string()], Some(&ids), Some(&paths), &vars(&[]), "p")
        .expect("wraps");
    assert_eq!(
        out,
        vec!["docker-bluff", "--id", "u:0:33", "--id", "g:0:33", "--map", "/a", "--map", "/b:/c", "--", "true"]
    );
}

#[test]
fn malformed_remap_ids_are_rejected_at_config_time() {
    let cmd = vec!["make".to_string()];
    assert!(wrap_with_docker_bluff(cmd.clone(), Some(&list(&["me 0"])), None, &vars(&[]), "p").is_err());
    assert!(wrap_with_docker_bluff(cmd, Some(&list(&["x:0"])), None, &vars(&[]), "p").is_err());
}

#[test]
fn relative_remap_paths_are_rejected_at_config_time() {
    let cmd = vec!["make".to_string()];
    let ids = list(&["me:0"]);
    assert!(wrap_with_docker_bluff(cmd, Some(&ids), Some(&list(&["relative/dir"])), &vars(&[]), "p").is_err());
}

#[test]
fn valid_id_forms_are_accepted() {
    for spec in ["me:0", "0:me", "1000:0", "u:0:33", "g:0:33", "me:me"] {
        assert!(validate_id_spec(spec).is_ok(), "{spec} should be valid");
    }
}

#[test]
fn ids_and_paths_expand_variables() {
    let v = vars(&[("uid", "1000"), ("pwd", "/home/me/project")]);
    let ids = list(&["{{ uid }}:0"]);
    let paths = list(&["{{ pwd }}"]);
    let out = wrap_with_docker_bluff(vec!["ls".to_string()], Some(&ids), Some(&paths), &v, "p").expect("wraps");
    assert_eq!(out, vec!["docker-bluff", "--id", "1000:0", "--map", "/home/me/project", "--", "ls"]);
}

#[test]
fn id_spec_errors_quote_the_spec() {
    let e = validate_id_spec("me 0").unwrap_err();
    assert!(e.contains("\"me 0\""), "{e}");
    assert!(validate_id_spec("u:me").is_err());
    assert!(validate_id_spec("a:b:c:d").is_err());
    assert!(validate_id_spec("99999999999:0").is_err());
}

#[test]
fn path_specs_must_be_absolute_on_both_sides() {
    assert!(validate_path_spec("/a").is_ok());
    assert!(validate_path_spec("/a:/b").is_ok());
    assert!(validate_path_spec("/a:b").is_err());
    let e = validate_path_spec("rel").unwrap_err();
    assert!(e.contains("\"rel\""), "{e}");
}
