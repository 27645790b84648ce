use castors::base::domain::{CastorName, ImageTag, MountDir};
use castors::base::registry::{CastorEntry, CreatedAt};
use castors::config::schema::{EnvMap, ProxyMode};
use castors::config::ResolvedConfig;
use castors::engine::docker::castors::cmd::{
    exec_args, inspect_args, list_args, rm_force_args, run_args, start_args,
    EXEC_SHELL_AUTO_SCRIPT, WORKSPACE_PATH,
};
use castors::engine::docker::castors::status::{parse_inspect_status, parse_list_line};
use castors::engine::docker::castors::{
    container_name, create_and_start, inspect_status, list_managed, stop_and_remove,
};
use castors::engine::docker::infra::cmd::{
    down_args, export_mitm_ca_certificate_args, inspect_container_health_args,
    inspect_container_ip_args, inspect_shared_network_internal_args, squid_reconfigure_args,
    up_args, MITM_CA_EXPORT_SCRIPT, PROJECT_NAME, SHARED_NETWORK_NAME,
};
use castors::engine::docker::infra::{
    ensure_begin, ensure_step, infra_file_in, infra_path_in, EnsureAnswer, EnsureProgress, EnsureRequest,
    compose_file_path, container_is_running, ensure_running, inspect_castor_ip,
    is_missing_or_stopped_container, parse_proxy_status, reconfigure_after_inspect,
    shared_network_is_internal, squid_file_path, ProxyStatus, ReconfigureStep, COMPOSE_TEMPLATE,
};
use castors::engine::docker::{display_exit, CommandOutput};
use castors::engine::types::{CastorStatus, EngineError};

fn entry(name: &str, image: &str, dir: &str) -> CastorEntry {
    CastorEntry {
        name: CastorName::from_str(name).unwrap(),
        image: ImageTag::from_str(image).unwrap(),
        mount_dir: MountDir::from_str(dir).unwrap(),
        created_at: CreatedAt { secs: 0, nanos: 0 },
    }
}

fn cn(s: &str) -> CastorName {
    CastorName::from_str(s).unwrap()
}

fn output(success: bool, stdout: &str, stderr: &str) -> CommandOutput {
    CommandOutput {
        success,
        code: Some(if success { 0 } else { 1 }),
        stdout: stdout.to_owned(),
        stderr: stderr.to_owned(),
    }
}

fn env_pairs(args: &[String]) -> Vec<&str> {
    args.windows(2).filter(|w| w[0] == "-e").map(|w| w[1].as_str()).collect()
}

fn config_with_env(pairs: &[(&str, &str)]) -> ResolvedConfig {
    let mut env = EnvMap::new();
    for (k, v) in pairs {
        env.insert((*k).to_owned(), (*v).to_owned());
    }
    ResolvedConfig { env, ..Default::default() }
}

// ----- castor argv -------------------------------------------------------------

#[test]
fn run_args_has_labels_and_mount() {
    let args = run_args(&entry("alpha", "img:latest", "/tmp/x"), &ResolvedConfig::default());
    assert_eq!(args[0], "run");
    assert_eq!(args[1], "-d");
    assert!(args.contains(&"--name".to_string()));
    assert!(args.contains(&"castor-alpha".to_string()));
    assert!(args.contains(&"castors.role=castor".to_string()));
    assert!(args.contains(&"castors.name=alpha".to_string()));
    assert!(args.windows(2).any(|w| w[0] == "--network" && w[1] == SHARED_NETWORK_NAME));
    assert!(args.contains(&"/tmp/x:/workspace".to_string()));
    assert_eq!(args.last().unwrap(), "img:latest");
}

#[test]
fn run_args_shadows_project_config_dir_with_readonly_tmpfs() {
    let args = run_args(&entry("alpha", "img:1", "/tmp/x"), &ResolvedConfig::default());
    assert!(args
        .windows(2)
        .any(|w| { w[0] == "--mount" && w[1] == "type=tmpfs,destination=/workspace/.castors,readonly" }));
}

#[test]
fn run_args_applies_default_container_hardening() {
    let args = run_args(&entry("alpha", "img:1", "/tmp/x"), &ResolvedConfig::default());
    assert!(args.windows(2).any(|w| w[0] == "--cap-drop" && w[1] == "ALL"));
    assert!(args.windows(2).any(|w| w[0] == "--security-opt" && w[1] == "no-new-privileges"));
    assert!(args.windows(2).any(|w| w[0] == "--tmpfs" && w[1] == "/tmp"));
    assert!(args.windows(2).any(|w| w[0] == "--tmpfs" && w[1] == "/run"));
    assert!(args.windows(2).any(|w| w[0] == "--tmpfs" && w[1] == "/var/tmp"));
    assert!(!args.windows(2).any(|w| w[0] == "--tmpfs" && w[1] == "/root"));
}

#[test]
fn run_args_emits_env_in_sorted_order() {
    let cfg = config_with_env(&[("BBB", "2"), ("AAA", "1"), ("CCC", "3")]);
    let args = run_args(&entry("alpha", "img:1", "/tmp/x"), &cfg);
    assert_eq!(
        env_pairs(&args),
        vec![
            "AAA=1",
            "BBB=2",
            "CCC=3",
            "HTTP_PROXY=http://castors-infra-squid:3128",
            "http_proxy=http://castors-infra-squid:3128",
            "HTTPS_PROXY=http://castors-infra-squid:3128",
            "https_proxy=http://castors-infra-squid:3128",
            "NO_PROXY=localhost,127.0.0.1,::1",
            "no_proxy=localhost,127.0.0.1,::1"
        ]
    );
}

#[test]
fn run_args_injects_shared_proxy_env_vars() {
    let args = run_args(&entry("alpha", "img:1", "/tmp/x"), &ResolvedConfig::default());
    assert!(args.windows(2).any(|w| w[0] == "-e" && w[1] == "HTTP_PROXY=http://castors-infra-squid:3128"));
    assert!(args.windows(2).any(|w| w[0] == "-e" && w[1] == "HTTPS_PROXY=http://castors-infra-squid:3128"));
    assert!(args.windows(2).any(|w| w[0] == "-e" && w[1] == "NO_PROXY=localhost,127.0.0.1,::1"));
}

#[test]
fn run_args_routes_proxy_env_to_mitm_when_configured() {
    let cfg = ResolvedConfig { proxy: ProxyMode::Mitm, ..Default::default() };
    let args = run_args(&entry("alpha", "img:1", "/tmp/x"), &cfg);
    assert!(args.windows(2).any(|w| w[0] == "-e" && w[1] == "HTTP_PROXY=http://castors-infra-mitm:8080"));
    assert!(args.windows(2).any(|w| w[0] == "-e" && w[1] == "HTTPS_PROXY=http://castors-infra-mitm:8080"));
}

#[test]
fn backend_proxy_env_is_emitted_after_user_env() {
    let cfg = config_with_env(&[("HTTP_PROXY", "http://user-proxy:8080")]);
    let args = run_args(&entry("alpha", "img:1", "/tmp/x"), &cfg);
    let pairs = env_pairs(&args);
    let user_idx = pairs.iter().position(|p| *p == "HTTP_PROXY=http://user-proxy:8080").unwrap();
    let backend_idx =
        pairs.iter().position(|p| *p == "HTTP_PROXY=http://castors-infra-squid:3128").unwrap();
    assert!(user_idx < backend_idx);
}

#[test]
fn run_args_image_remains_last_positional_after_env_injection() {
    let cfg = config_with_env(&[("FOO", "bar")]);
    let args = run_args(&entry("alpha", "img:final", "/tmp/x"), &cfg);
    assert_eq!(args.last().unwrap(), "img:final");
    let last_idx = args.len() - 1;
    assert_eq!(args[last_idx - 2], "-w");
    assert_eq!(args[last_idx - 1], WORKSPACE_PATH);
}

#[test]
fn run_args_with_empty_config_emits_backend_proxy_env() {
    let args = run_args(&entry("alpha", "img:1", "/tmp/x"), &ResolvedConfig::default());
    assert_eq!(args.iter().filter(|a| *a == "-e").count(), 6);
}

#[test]
fn exec_args_auto_prefers_inline_shell_probe() {
    let args = exec_args(&cn("alpha"), None);
    assert_eq!(args, vec!["exec", "-it", "castor-alpha", "/bin/sh", "-c", EXEC_SHELL_AUTO_SCRIPT]);
}

#[test]
fn exec_args_explicit_shell_is_single_argv() {
    let args = exec_args(&cn("alpha"), Some("/bin/bash"));
    assert_eq!(args, vec!["exec", "-it", "castor-alpha", "/bin/bash"]);
}

#[test]
fn rm_force_args_uses_force_flag() {
    assert_eq!(rm_force_args(&cn("alpha")), vec!["rm", "-f", "castor-alpha"]);
}

#[test]
fn inspect_args_requests_status_and_exit_code() {
    let args = inspect_args(&cn("alpha"));
    assert_eq!(args[0], "inspect");
    assert_eq!(args[1], "--format");
    assert_eq!(args[2], "{{.State.Status}}|{{.State.ExitCode}}");
    assert_eq!(args[3], "castor-alpha");
}

#[test]
fn list_args_filters_by_castor_role() {
    let args = list_args();
    assert!(args.contains(&"label=castors.role=castor".to_string()));
    let format = args.iter().find(|a| a.starts_with("{{.Label")).unwrap();
    assert_eq!(format, "{{.Label \"castors.name\"}}|{{.State}}");
}

#[test]
fn start_args_targets_container() {
    assert_eq!(start_args(&cn("alpha")), vec!["start", "castor-alpha"]);
    assert_eq!(container_name(&cn("alpha")), "castor-alpha");
}

// ----- status parsing ----------------------------------------------------------

#[test]
fn parses_running_status() {
    assert_eq!(parse_inspect_status("running|0\n"), CastorStatus::Running);
}

#[test]
fn parses_exited_with_exit_code() {
    assert_eq!(parse_inspect_status("exited|137\n"), CastorStatus::Exited { exit_code: Some(137) });
}

#[test]
fn parses_exited_without_exit_code() {
    assert_eq!(parse_inspect_status("created|"), CastorStatus::Exited { exit_code: None });
}

#[test]
fn parses_negative_exit_code() {
    assert_eq!(parse_inspect_status("exited|-1"), CastorStatus::Exited { exit_code: Some(-1) });
}

#[test]
fn parses_list_line_running() {
    let mc = parse_list_line("alpha|running").unwrap();
    assert_eq!(mc.name.as_str(), "alpha");
    assert_eq!(mc.status, CastorStatus::Running);
}

#[test]
fn parses_list_line_exited() {
    let mc = parse_list_line("beta|exited").unwrap();
    assert_eq!(mc.name.as_str(), "beta");
    assert_eq!(mc.status, CastorStatus::Exited { exit_code: None });
}

#[test]
fn list_line_without_pipe_is_skipped() {
    assert!(parse_list_line("just-a-name").is_none());
}

#[test]
fn list_line_with_invalid_name_is_skipped() {
    assert!(parse_list_line("bad name!|running").is_none());
}

// ----- interpreting castor commands ----------------------------------------------

#[test]
fn stop_and_remove_tolerates_missing_container() {
    assert_eq!(stop_and_remove(&output(false, "", "Error: No such container: castor-x\n")), Ok(()));
    assert_eq!(
        stop_and_remove(&output(false, "", " boom \n")),
        Err(EngineError::Backend("docker rm -f failed: boom".to_owned()))
    );
}

#[test]
fn inspect_status_maps_missing_container() {
    assert_eq!(inspect_status(&output(false, "", "Error: No such object: x")), Ok(CastorStatus::Missing));
    assert_eq!(inspect_status(&output(true, "running|0\n", "")), Ok(CastorStatus::Running));
}

#[test]
fn create_and_start_reports_exit_code() {
    let out = CommandOutput { success: false, code: Some(125), stdout: String::new(), stderr: "bad\n".to_owned() };
    assert_eq!(
        create_and_start(&out),
        Err(EngineError::Backend("docker run failed (exit 125): bad".to_owned()))
    );
    assert_eq!(display_exit(None), "<signal>");
}

#[test]
fn list_managed_parses_each_line() {
    let listed = list_managed(&output(true, "alpha|running\nbad line\nbeta|exited\r\n", "")).unwrap();
    let names: Vec<_> = listed.iter().map(|m| m.name.as_str().to_owned()).collect();
    assert_eq!(names, vec!["alpha", "beta"]);
    assert_eq!(listed[1].status, CastorStatus::Exited { exit_code: None });
}

// ----- infra argv ----------------------------------------------------------------

#[test]
fn up_args_uses_fixed_project_and_detached_flag() {
    let args = up_args("/tmp/compose.yaml", None);
    assert_eq!(args, vec!["compose", "-p", PROJECT_NAME, "-f", "/tmp/compose.yaml", "up", "-d"]);
}

#[test]
fn down_args_uses_fixed_project_profile_and_no_volume_flag() {
    let args = down_args("/tmp/compose.yaml");
    assert_eq!(
        args,
        vec!["compose", "-p", PROJECT_NAME, "-f", "/tmp/compose.yaml", "--profile", "mitm", "down"]
    );
    assert!(!args.iter().any(|a| a == "--volumes" || a == "-v"));
}

#[test]
fn up_and_down_share_project_name() {
    let up = up_args("a", None);
    let down = down_args("b");
    let up_proj = &up[up.iter().position(|a| a == "-p").unwrap() + 1];
    let down_proj = &down[down.iter().position(|a| a == "-p").unwrap() + 1];
    assert_eq!(up_proj, down_proj);
}

#[test]
fn export_mitm_ca_certificate_uses_mitm_profile_and_one_shot_container() {
    let args = export_mitm_ca_certificate_args("/tmp/compose.yaml");
    assert_eq!(
        args,
        vec![
            "compose",
            "-p",
            PROJECT_NAME,
            "-f",
            "/tmp/compose.yaml",
            "--profile",
            "mitm",
            "run",
            "--rm",
            "--no-deps",
            "--entrypoint",
            "sh",
            "mitm",
            "-c",
            MITM_CA_EXPORT_SCRIPT,
        ]
    );
}

#[test]
fn up_args_can_enable_compose_profile() {
    let args = up_args("/tmp/compose.yaml", Some("mitm"));
    assert_eq!(
        args,
        vec!["compose", "-p", PROJECT_NAME, "-f", "/tmp/compose.yaml", "--profile", "mitm", "up", "-d"]
    );
}

#[test]
fn project_name_is_disjoint_from_castor_container_prefix() {
    assert!(!PROJECT_NAME.starts_with("castor-"));
    assert_eq!(PROJECT_NAME, "castors-infra");
}

#[test]
fn inspect_container_health_args_targets_given_container() {
    let args = inspect_container_health_args("castors-infra-mitm");
    assert_eq!(
        args,
        vec![
            "inspect",
            "--format",
            "{{.State.Status}}|{{if .State.Health}}{{.State.Health.Status}}{{else}}none{{end}}",
            "castors-infra-mitm",
        ]
    );
}

#[test]
fn inspect_shared_network_internal_args_targets_shared_network() {
    let args = inspect_shared_network_internal_args();
    assert_eq!(args, vec!["network", "inspect", "--format", "{{.Internal}}", SHARED_NETWORK_NAME]);
}

#[test]
fn inspect_container_ip_args_targets_shared_network() {
    let args = inspect_container_ip_args("castor-alpha");
    assert_eq!(
        args,
        vec![
            "inspect",
            "--format",
            "{{(index .NetworkSettings.Networks \"castors-shared\").IPAddress}}",
            "castor-alpha",
        ]
    );
}

#[test]
fn squid_reconfigure_args_targets_squid_container() {
    assert_eq!(squid_reconfigure_args(), vec!["exec", "castors-infra-squid", "squid", "-k", "reconfigure"]);
}

// ----- infra decisions ------------------------------------------------------------

#[test]
fn embedded_template_parses_as_non_empty_yaml_document() {
    assert!(COMPOSE_TEMPLATE.contains("services:"));
    assert!(COMPOSE_TEMPLATE.contains("castors-shared"));
    assert!(COMPOSE_TEMPLATE.contains("internal: true"));
    assert!(COMPOSE_TEMPLATE.contains("castors-egress"));
    assert!(COMPOSE_TEMPLATE.contains("ubuntu/squid"));
    assert!(COMPOSE_TEMPLATE.contains("./squid.conf:/etc/squid/squid.conf:ro"));
}

#[test]
fn compose_file_path_lives_under_castors_home_infra_subdir() {
    let p = compose_file_path().expect("test env should expose a HOME");
    assert!(p.ends_with(".castors/.state/infra/compose.yaml"));
}

#[test]
fn squid_file_path_lives_under_castors_home_infra_subdir() {
    let p = squid_file_path().expect("test env should expose a HOME");
    assert!(p.ends_with(".castors/.state/infra/squid.conf"));
}

#[test]
fn parse_proxy_status_accepts_running_healthy_and_running_none() {
    assert_eq!(parse_proxy_status("running|healthy"), ProxyStatus::Ready);
    assert_eq!(parse_proxy_status("running|none"), ProxyStatus::Ready);
}

#[test]
fn parse_proxy_status_waits_for_non_ready_states() {
    assert_eq!(parse_proxy_status("running|starting"), ProxyStatus::Waiting("running|starting".to_owned()));
    assert_eq!(parse_proxy_status("exited|unhealthy"), ProxyStatus::Waiting("exited|unhealthy".to_owned()));
}

#[test]
fn shared_network_is_internal_only_accepts_true() {
    assert!(shared_network_is_internal("true\n"));
    assert!(!shared_network_is_internal("false\n"));
    assert!(!shared_network_is_internal(""));
}

#[test]
fn container_is_running_only_accepts_running_state() {
    assert!(container_is_running("running|healthy\n"));
    assert!(container_is_running("running|none\n"));
    assert!(!container_is_running("exited|none\n"));
    assert!(!container_is_running(""));
}

#[test]
fn missing_or_stopped_container_errors_are_non_fatal_for_reconfigure() {
    assert!(is_missing_or_stopped_container("Error: No such container: castors-infra-squid"));
    assert!(is_missing_or_stopped_container("error: no such object: castors-infra-squid"));
    assert!(is_missing_or_stopped_container("container castors-infra-squid is not running"));
    assert!(!is_missing_or_stopped_container("squid: Bungled config"));
}

#[test]
fn reconfigure_only_signals_a_running_squid() {
    assert_eq!(reconfigure_after_inspect(&output(true, "running|healthy\n", "")), ReconfigureStep::Reconfigure);
    assert_eq!(reconfigure_after_inspect(&output(true, "exited|none\n", "")), ReconfigureStep::Done(Ok(())));
    assert_eq!(
        reconfigure_after_inspect(&output(false, "", "Error: No such container: castors-infra-squid")),
        ReconfigureStep::Done(Ok(()))
    );
}

#[test]
fn ensure_running_waits_for_mitm_only_in_mitm_mode() {
    let squid = ensure_running(ProxyMode::Squid);
    assert_eq!(squid.profile, None);
    assert_eq!(squid.wait_for, vec!["castors-infra-squid"]);
    let mitm = ensure_running(ProxyMode::Mitm);
    assert_eq!(mitm.profile.as_deref(), Some("mitm"));
    assert_eq!(mitm.wait_for, vec!["castors-infra-squid", "castors-infra-mitm"]);
}

#[test]
fn inspect_castor_ip_ignores_missing_addresses() {
    let name = cn("alpha");
    assert_eq!(inspect_castor_ip(&name, &output(true, "172.20.0.5\n", "")), Ok(Some("172.20.0.5".to_owned())));
    assert_eq!(inspect_castor_ip(&name, &output(true, "<no value>\n", "")), Ok(None));
    assert_eq!(inspect_castor_ip(&name, &output(false, "", "Error: No such object: castor-alpha")), Ok(None));
}

#[test]
fn ensure_steps_stop_after_a_failed_compose_up() {
    let flow = ensure_begin(ProxyMode::Mitm, "/h/compose.yaml");
    assert_eq!(flow.next, EnsureRequest::ComposeUp);
    assert_eq!(flow.command, up_args("/h/compose.yaml", Some("mitm")));
    match ensure_step(flow, EnsureAnswer::Output(output(false, "", " boom \n"))) {
        EnsureProgress::Finish(Err(EngineError::Backend(m))) => assert_eq!(m, "docker compose up failed: boom"),
        other => panic!("unexpected {other:?}"),
    }
}

#[test]
fn ensure_steps_check_network_then_wait_for_each_proxy() {
    let flow = ensure_begin(ProxyMode::Mitm, "/h/compose.yaml");
    let flow = match ensure_step(flow, EnsureAnswer::Output(output(true, "", ""))) {
        EnsureProgress::Continue(f) => f,
        other => panic!("unexpected {other:?}"),
    };
    assert_eq!(flow.next, EnsureRequest::InspectNetwork);
    assert_eq!(flow.command, inspect_shared_network_internal_args());
    let flow = match ensure_step(flow, EnsureAnswer::Output(output(true, "true\n", ""))) {
        EnsureProgress::Continue(f) => f,
        other => panic!("unexpected {other:?}"),
    };
    assert_eq!(flow.next, EnsureRequest::PollProxy);
    assert_eq!(flow.command, inspect_container_health_args("castors-infra-squid"));
    let flow = match ensure_step(flow, EnsureAnswer::Output(output(true, "running|starting", ""))) {
        EnsureProgress::Continue(f) => f,
        other => panic!("unexpected {other:?}"),
    };
    assert_eq!(flow.last_state, "running|starting");
    let flow = match ensure_step(flow, EnsureAnswer::Output(output(true, "running|healthy", ""))) {
        EnsureProgress::Continue(f) => f,
        other => panic!("unexpected {other:?}"),
    };
    assert_eq!(flow.waiting, 1);
    assert_eq!(flow.command, inspect_container_health_args("castors-infra-mitm"));
    match ensure_step(flow, EnsureAnswer::TimedOut) {
        EnsureProgress::Finish(Err(EngineError::Backend(m))) => assert_eq!(
            m,
            "proxy container 'castors-infra-mitm' did not become ready within 20s (last state: not yet inspected)"
        ),
        other => panic!("unexpected {other:?}"),
    }
}

#[test]
fn ensure_steps_refuse_a_network_that_is_not_internal() {
    let flow = ensure_begin(ProxyMode::Squid, "/h/compose.yaml");
    let flow = match ensure_step(flow, EnsureAnswer::Output(output(true, "", ""))) {
        EnsureProgress::Continue(f) => f,
        other => panic!("unexpected {other:?}"),
    };
    assert!(matches!(ensure_step(flow, EnsureAnswer::Output(output(true, "false", ""))), EnsureProgress::Finish(Err(_))));
}

#[test]
fn infra_paths_follow_the_home_directory() {
    let home = Some("/home/u".to_owned());
    assert_eq!(infra_path_in(&home, "compose.yaml").unwrap(), "/home/u/.castors/.state/infra/compose.yaml");
    assert_eq!(
        infra_file_in(&home, "mitm/config", "policy.json").unwrap(),
        "/home/u/.castors/.state/infra/mitm/config/policy.json"
    );
    assert!(infra_path_in(&None, "compose.yaml").is_err());
}
