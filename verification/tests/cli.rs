use std::cell::{Cell, RefCell};

use castors::base::domain::{CastorName, ImageTag, MountDir};
use castors::base::registry::{CastorEntry, CreatedAt, Registry, RegistryError, RegistryStore};
use castors::cli::add::{self, AddArgs};
use castors::cli::display::format_path_with;
use castors::cli::exec::{self, ExecArgs};
use castors::cli::infra::{self, InfraArgs, InfraCommand};
use castors::cli::list::{self, ListOutput};
use castors::cli::mitm::{self, CaArgs, MitmArgs, MitmCommand};
use castors::cli::{prune, restart, rm};
use castors::cli::restart::RestartArgs;
use castors::cli::rm::RmArgs;
use castors::cli::Request;
use castors::config::merge::merge;
use castors::config::schema::{
    GlobalConfig, GlobalDefaults, NetworkConfig, ProjectCastor, ProjectConfig, ProxyMode,
};
use castors::config::ResolvedConfig;
use castors::engine::types::{CastorStatus, EngineError, ManagedContainer, ShellExit};
use castors::engine::Engine;

// ----- fixtures ------------------------------------------------------------------

#[derive(Debug, Clone, PartialEq, Eq)]
enum EngineCall {
    EnsureInfra(ProxyMode),
    RefreshProxyPolicy,
    ExportMitmCaCertificate,
    CreateAndStart(CastorName, ResolvedConfig),
    ExecShell(CastorName, Option<String>),
    StopAndRemove(CastorName),
    ListManaged,
    TeardownInfraIfIdle,
}

struct MockEngine {
    calls: RefCell<Vec<EngineCall>>,
    managed: RefCell<Vec<ManagedContainer>>,
    fail_ensure_infra: Cell<bool>,
    fail_refresh_proxy_policy: Cell<bool>,
    fail_export_mitm_ca_certificate: Cell<bool>,
    fail_create_and_start: Cell<bool>,
    fail_stop_and_remove: Cell<bool>,
    fail_list_managed: Cell<bool>,
    exec_should_fail: Cell<bool>,
}

impl MockEngine {
    fn new() -> Self {
        MockEngine {
            calls: RefCell::new(Vec::new()),
            managed: RefCell::new(Vec::new()),
            fail_ensure_infra: Cell::new(false),
            fail_refresh_proxy_policy: Cell::new(false),
            fail_export_mitm_ca_certificate: Cell::new(false),
            fail_create_and_start: Cell::new(false),
            fail_stop_and_remove: Cell::new(false),
            fail_list_managed: Cell::new(false),
            exec_should_fail: Cell::new(false),
        }
    }

    fn calls(&self) -> Vec<EngineCall> {
        self.calls.borrow().clone()
    }

    fn record(&self, call: EngineCall) {
        self.calls.borrow_mut().push(call);
    }

    fn outcome(&self, fail: &Cell<bool>, what: &str) -> Result<(), EngineError> {
        if fail.get() {
            Err(EngineError::Backend(format!("mock: {what} configured to fail")))
        } else {
            Ok(())
        }
    }
}

impl Engine for MockEngine {
    fn create_and_start(&self, entry: &CastorEntry, config: &ResolvedConfig) -> Result<(), EngineError> {
        self.record(EngineCall::CreateAndStart(entry.name.clone(), config.clone()));
        self.outcome(&self.fail_create_and_start, "create_and_start")
    }

    fn exec_shell(&self, name: &CastorName, shell: Option<&str>) -> Result<ShellExit, EngineError> {
        self.record(EngineCall::ExecShell(name.clone(), shell.map(str::to_owned)));
        Ok(ShellExit { code: Some(if self.exec_should_fail.get() { 1 } else { 0 }) })
    }

    fn stop_and_remove(&self, name: &CastorName) -> Result<(), EngineError> {
        self.record(EngineCall::StopAndRemove(name.clone()));
        self.outcome(&self.fail_stop_and_remove, "stop_and_remove")
    }

    fn inspect_status(&self, _name: &CastorName) -> Result<CastorStatus, EngineError> {
        Ok(CastorStatus::Missing)
    }

    fn list_managed(&self) -> Result<Vec<ManagedContainer>, EngineError> {
        self.record(EngineCall::ListManaged);
        self.outcome(&self.fail_list_managed, "list_managed")?;
        Ok(self.managed.borrow().iter().map(|m| ManagedContainer { name: m.name.clone(), status: m.status }).collect())
    }

    fn ensure_infra(&self, config: &ResolvedConfig) -> Result<(), EngineError> {
        self.record(EngineCall::EnsureInfra(config.proxy));
        self.outcome(&self.fail_ensure_infra, "ensure_infra")
    }

    fn refresh_proxy_policy(&self, _registry: &Registry) -> Result<(), EngineError> {
        self.record(EngineCall::RefreshProxyPolicy);
        self.outcome(&self.fail_refresh_proxy_policy, "refresh_proxy_policy")
    }

    fn export_mitm_ca_certificate(&self) -> Result<Vec<u8>, EngineError> {
        self.record(EngineCall::ExportMitmCaCertificate);
        self.outcome(&self.fail_export_mitm_ca_certificate, "export_mitm_ca_certificate")?;
        Ok(b"mock-ca-cert\n".to_vec())
    }

    fn teardown_infra_if_idle(&self) -> Result<(), EngineError> {
        self.record(EngineCall::TeardownInfraIfIdle);
        Ok(())
    }
}

/// Keeps saved registries in memory.
struct MemoryStore {
    saved: RefCell<Vec<Vec<String>>>,
}

impl MemoryStore {
    fn new() -> Self {
        MemoryStore { saved: RefCell::new(Vec::new()) }
    }
}

impl RegistryStore for MemoryStore {
    fn save(&self, registry: &Registry) -> Result<(), RegistryError> {
        let names = registry.list().iter().map(|e| e.name.as_str().to_owned()).collect();
        self.saved.borrow_mut().push(names);
        Ok(())
    }
}

fn fresh_registry() -> (MemoryStore, Registry) {
    (MemoryStore::new(), Registry::new("/tmp/castors-test/registry.json"))
}

fn cn(s: &str) -> CastorName {
    CastorName::from_str(s).expect("valid castor name")
}

fn sample_entry(name: &str, image: &str, dir: &str) -> CastorEntry {
    CastorEntry {
        name: cn(name),
        image: ImageTag::from_str(image).expect("valid image tag"),
        mount_dir: MountDir::from_str(dir).expect("valid mount dir"),
        created_at: CreatedAt { secs: 0, nanos: 0 },
    }
}

fn now() -> CreatedAt {
    CreatedAt { secs: 0, nanos: 0 }
}

fn args_with(dir: &str, image: Option<&str>, name: Option<&str>) -> AddArgs {
    AddArgs {
        dir: dir.parse().unwrap(),
        image: image.map(|s| s.parse().unwrap()),
        name: name.map(|s| s.parse().unwrap()),
    }
}

fn mount(dir: &str) -> MountDir {
    dir.parse::<MountDir>().unwrap().to_absolute().unwrap()
}

fn project_with(name: Option<&str>, image: Option<&str>) -> ProjectConfig {
    ProjectConfig {
        castor: ProjectCastor { name: name.map(|s| s.parse().unwrap()), image: image.map(|s| s.parse().unwrap()) },
        ..Default::default()
    }
}

fn add_run(
    args: AddArgs,
    dir: &str,
    global: &GlobalConfig,
    project: &ProjectConfig,
    engine: &MockEngine,
    store: &MemoryStore,
    registry: &mut Registry,
) -> Result<castors::cli::Report, castors::cli::CliError> {
    add::run(args, mount(dir), global, project, engine, registry, store, now())
}

// ----- add -----------------------------------------------------------------------

#[test]
fn registers_castor_after_starting_container() {
    let (store, mut registry) = fresh_registry();
    let engine = MockEngine::new();
    add_run(args_with("/tmp/x", Some("img:1"), Some("alpha")), "/tmp/x", &GlobalConfig::default(), &ProjectConfig::default(), &engine, &store, &mut registry).unwrap();
    assert_eq!(registry.len(), 1);
    let stored = registry.get(&cn("alpha")).unwrap();
    assert_eq!(stored.image.as_str(), "img:1");
    let calls = engine.calls();
    assert_eq!(calls.len(), 3);
    assert_eq!(calls[0], EngineCall::EnsureInfra(ProxyMode::Squid));
    assert!(matches!(calls[1], EngineCall::CreateAndStart(ref n, _) if *n == cn("alpha")));
    assert_eq!(calls[2], EngineCall::RefreshProxyPolicy);
    assert_eq!(store.saved.borrow().clone(), vec![vec!["alpha".to_owned()]]);
}

#[test]
fn ensure_infra_runs_before_create_and_start() {
    let (store, mut registry) = fresh_registry();
    let engine = MockEngine::new();
    add_run(args_with("/tmp/x", Some("img:1"), Some("alpha")), "/tmp/x", &GlobalConfig::default(), &ProjectConfig::default(), &engine, &store, &mut registry).unwrap();
    let calls = engine.calls();
    let infra_idx = calls.iter().position(|c| *c == EngineCall::EnsureInfra(ProxyMode::Squid));
    let start_idx = calls.iter().position(|c| matches!(c, EngineCall::CreateAndStart(_, _)));
    assert!(infra_idx < start_idx);
}

#[test]
fn auto_names_from_dir_when_nothing_else_provides_one() {
    let (store, mut registry) = fresh_registry();
    let engine = MockEngine::new();
    add_run(args_with("/work/myrepo", Some("img:1"), None), "/work/myrepo", &GlobalConfig::default(), &ProjectConfig::default(), &engine, &store, &mut registry).unwrap();
    assert!(registry.get(&cn("myrepo-1")).is_some());
}

#[test]
fn auto_naming_skips_existing_suffixes() {
    let (store, mut registry) = fresh_registry();
    registry.insert(sample_entry("myrepo-1", "img:0", "/tmp/x")).unwrap();
    let engine = MockEngine::new();
    add_run(args_with("/work/myrepo", Some("img:1"), None), "/work/myrepo", &GlobalConfig::default(), &ProjectConfig::default(), &engine, &store, &mut registry).unwrap();
    assert!(registry.get(&cn("myrepo-2")).is_some());
}

#[test]
fn project_image_used_when_cli_omits_image() {
    let (store, mut registry) = fresh_registry();
    let engine = MockEngine::new();
    add_run(args_with("/tmp/x", None, Some("alpha")), "/tmp/x", &GlobalConfig::default(), &project_with(None, Some("from-project:tag")), &engine, &store, &mut registry).unwrap();
    assert_eq!(registry.get(&cn("alpha")).unwrap().image.as_str(), "from-project:tag");
}

#[test]
fn global_default_image_used_as_last_resort() {
    let (store, mut registry) = fresh_registry();
    let engine = MockEngine::new();
    let global = GlobalConfig { defaults: GlobalDefaults { image: Some("global:tag".parse().unwrap()) }, ..Default::default() };
    add_run(args_with("/tmp/x", None, Some("alpha")), "/tmp/x", &global, &ProjectConfig::default(), &engine, &store, &mut registry).unwrap();
    assert_eq!(registry.get(&cn("alpha")).unwrap().image.as_str(), "global:tag");
}

#[test]
fn errors_when_no_image_anywhere() {
    let (store, mut registry) = fresh_registry();
    let engine = MockEngine::new();
    let err = add_run(args_with("/tmp/x", None, None), "/tmp/x", &GlobalConfig::default(), &ProjectConfig::default(), &engine, &store, &mut registry).unwrap_err();
    assert!(err.to_string().contains("no image specified"));
    assert!(engine.calls().is_empty());
    assert_eq!(registry.len(), 0);
}

#[test]
fn merged_env_reaches_engine() {
    let (store, mut registry) = fresh_registry();
    let engine = MockEngine::new();
    let mut global = GlobalConfig::default();
    global.env.insert("RUST_LOG".to_owned(), "info".to_owned());
    global.env.insert("KEEP".to_owned(), "yes".to_owned());
    let mut project = ProjectConfig::default();
    project.env.insert("RUST_LOG".to_owned(), "debug".to_owned());
    add_run(args_with("/tmp/x", Some("img:1"), Some("alpha")), "/tmp/x", &global, &project, &engine, &store, &mut registry).unwrap();
    let cfg = engine
        .calls()
        .into_iter()
        .find_map(|c| match c {
            EngineCall::CreateAndStart(_, cfg) => Some(cfg),
            _ => None,
        })
        .unwrap();
    assert_eq!(cfg.env.get("RUST_LOG").unwrap(), "debug");
    assert_eq!(cfg.env.get("KEEP").unwrap(), "yes");
}

#[test]
fn rejects_duplicate_explicit_name_without_touching_engine() {
    let (store, mut registry) = fresh_registry();
    registry.insert(sample_entry("alpha", "img:0", "/tmp/x")).unwrap();
    let engine = MockEngine::new();
    let err = add_run(args_with("/tmp/y", Some("img:1"), Some("alpha")), "/tmp/y", &GlobalConfig::default(), &ProjectConfig::default(), &engine, &store, &mut registry).unwrap_err();
    assert!(err.to_string().contains("already taken"));
    assert!(engine.calls().is_empty());
    assert_eq!(registry.len(), 1);
}

#[test]
fn does_not_register_when_create_and_start_fails() {
    let (store, mut registry) = fresh_registry();
    let engine = MockEngine::new();
    engine.fail_create_and_start.set(true);
    let err = add_run(args_with("/tmp/x", Some("img:1"), Some("alpha")), "/tmp/x", &GlobalConfig::default(), &ProjectConfig::default(), &engine, &store, &mut registry).unwrap_err();
    assert!(err.to_string().contains("failed to start container"));
    assert_eq!(registry.len(), 0);
}

#[test]
fn skips_create_and_start_when_ensure_infra_fails() {
    let (store, mut registry) = fresh_registry();
    let engine = MockEngine::new();
    engine.fail_ensure_infra.set(true);
    let _ = add_run(args_with("/tmp/x", Some("img:1"), Some("alpha")), "/tmp/x", &GlobalConfig::default(), &ProjectConfig::default(), &engine, &store, &mut registry).unwrap_err();
    assert_eq!(engine.calls(), vec![EngineCall::EnsureInfra(ProxyMode::Squid)]);
    assert_eq!(registry.len(), 0);
}

#[test]
fn add_warns_about_squid_secret_injection() {
    let (store, mut registry) = fresh_registry();
    let engine = MockEngine::new();
    let mut global = GlobalConfig::default();
    global.network.allowed_hosts = vec!["api.openai.com".parse().unwrap()];
    global.secrets = vec![castors::config::schema::SecretInjection {
        host: "api.openai.com".parse().unwrap(),
        header: "Authorization".to_owned(),
        value_template: "Bearer {{value}}".to_owned(),
        value_from: castors::config::schema::SecretSource::Env("K".to_owned()),
    }];
    let report = add_run(args_with("/tmp/x", Some("img:1"), Some("alpha")), "/tmp/x", &global, &ProjectConfig::default(), &engine, &store, &mut registry).unwrap();
    assert_eq!(report.out, vec!["added castor 'alpha'"]);
    assert_eq!(report.warnings.len(), 1);
    assert!(report.warnings[0].starts_with("warning: 1 secret injection rule(s): squid-mode"));
}

// ----- rm ------------------------------------------------------------------------

#[test]
fn removes_entry_and_calls_stop_then_teardown() {
    let (store, mut registry) = fresh_registry();
    registry.insert(sample_entry("alpha", "img", "/tmp/x")).unwrap();
    let engine = MockEngine::new();
    rm::run(RmArgs { castor_name: cn("alpha") }, &engine, &mut registry, &store).unwrap();
    assert_eq!(registry.len(), 0);
    assert_eq!(
        engine.calls(),
        vec![EngineCall::StopAndRemove(cn("alpha")), EngineCall::RefreshProxyPolicy, EngineCall::TeardownInfraIfIdle]
    );
}

#[test]
fn keeps_registry_unchanged_when_stop_fails() {
    let (store, mut registry) = fresh_registry();
    registry.insert(sample_entry("alpha", "img", "/tmp/x")).unwrap();
    let engine = MockEngine::new();
    engine.fail_stop_and_remove.set(true);
    let err = rm::run(RmArgs { castor_name: cn("alpha") }, &engine, &mut registry, &store).unwrap_err();
    assert!(err.to_string().contains("failed to stop container"));
    assert_eq!(registry.len(), 1);
    assert_eq!(engine.calls(), vec![EngineCall::StopAndRemove(cn("alpha"))]);
}

#[test]
fn errors_when_castor_unknown_to_registry() {
    let (store, mut registry) = fresh_registry();
    let engine = MockEngine::new();
    let err = rm::run(RmArgs { castor_name: cn("ghost") }, &engine, &mut registry, &store).unwrap_err();
    assert!(err.to_string().contains("failed to remove castor"));
    assert_eq!(engine.calls(), vec![EngineCall::StopAndRemove(cn("ghost"))]);
}

// ----- prune ---------------------------------------------------------------------

#[test]
fn empty_registry_only_calls_teardown() {
    let (store, mut registry) = fresh_registry();
    let engine = MockEngine::new();
    prune::run(&engine, &mut registry, &store).unwrap();
    assert_eq!(engine.calls(), vec![EngineCall::TeardownInfraIfIdle]);
}

#[test]
fn stops_every_castor_then_clears_registry() {
    let (store, mut registry) = fresh_registry();
    registry.insert(sample_entry("alpha", "img", "/tmp/x")).unwrap();
    registry.insert(sample_entry("beta", "img", "/tmp/y")).unwrap();
    let engine = MockEngine::new();
    let report = prune::run(&engine, &mut registry, &store).unwrap();
    assert_eq!(registry.len(), 0);
    assert_eq!(
        engine.calls(),
        vec![
            EngineCall::StopAndRemove(cn("alpha")),
            EngineCall::StopAndRemove(cn("beta")),
            EngineCall::RefreshProxyPolicy,
            EngineCall::TeardownInfraIfIdle,
        ]
    );
    assert_eq!(report.out, vec!["pruned 2 castor(s)"]);
}

#[test]
fn aborts_on_first_stop_failure_without_clearing_registry() {
    let (store, mut registry) = fresh_registry();
    registry.insert(sample_entry("alpha", "img", "/tmp/x")).unwrap();
    registry.insert(sample_entry("beta", "img", "/tmp/y")).unwrap();
    let engine = MockEngine::new();
    engine.fail_stop_and_remove.set(true);
    let err = prune::run(&engine, &mut registry, &store).unwrap_err();
    assert!(err.to_string().contains("failed to stop container"));
    assert_eq!(registry.len(), 2);
    assert_eq!(engine.calls(), vec![EngineCall::StopAndRemove(cn("alpha"))]);
}

// ----- restart -------------------------------------------------------------------

#[test]
fn recreates_registered_castor_and_refreshes_policy() {
    let (store, mut registry) = fresh_registry();
    registry.insert(sample_entry("alpha", "old:tag", "/tmp/x")).unwrap();
    let engine = MockEngine::new();
    let global = GlobalConfig {
        network: NetworkConfig { proxy: Some(ProxyMode::Mitm), ..Default::default() },
        ..Default::default()
    };
    let project = ProjectConfig {
        castor: ProjectCastor { image: Some("new:tag".parse().unwrap()), ..Default::default() },
        ..Default::default()
    };
    restart::run(RestartArgs { castor_name: cn("alpha") }, &global, &project, &engine, &mut registry, &store, now()).unwrap();
    assert_eq!(registry.get(&cn("alpha")).unwrap().image.as_str(), "new:tag");
    assert_eq!(
        engine.calls(),
        vec![
            EngineCall::EnsureInfra(ProxyMode::Mitm),
            EngineCall::StopAndRemove(cn("alpha")),
            EngineCall::CreateAndStart(cn("alpha"), merge(&global, &project)),
            EngineCall::RefreshProxyPolicy,
        ]
    );
}

#[test]
fn falls_back_to_existing_image_when_config_has_no_image() {
    let (store, mut registry) = fresh_registry();
    registry.insert(sample_entry("alpha", "old:tag", "/tmp/x")).unwrap();
    let engine = MockEngine::new();
    restart::run(RestartArgs { castor_name: cn("alpha") }, &GlobalConfig::default(), &ProjectConfig::default(), &engine, &mut registry, &store, now()).unwrap();
    assert_eq!(registry.get(&cn("alpha")).unwrap().image.as_str(), "old:tag");
}

#[test]
fn keeps_registry_unchanged_when_create_fails() {
    let (store, mut registry) = fresh_registry();
    registry.insert(sample_entry("alpha", "old:tag", "/tmp/x")).unwrap();
    let engine = MockEngine::new();
    engine.fail_create_and_start.set(true);
    let err = restart::run(RestartArgs { castor_name: cn("alpha") }, &GlobalConfig::default(), &ProjectConfig::default(), &engine, &mut registry, &store, now()).unwrap_err();
    assert!(err.to_string().contains("failed to start container"));
    assert_eq!(registry.get(&cn("alpha")).unwrap().image.as_str(), "old:tag");
    assert!(!engine.calls().iter().any(|call| *call == EngineCall::RefreshProxyPolicy));
}

#[test]
fn errors_when_castor_is_unknown() {
    let (store, mut registry) = fresh_registry();
    let engine = MockEngine::new();
    let err = restart::run(RestartArgs { castor_name: cn("ghost") }, &GlobalConfig::default(), &ProjectConfig::default(), &engine, &mut registry, &store, now()).unwrap_err();
    assert!(err.to_string().contains("castor 'ghost' not found"));
    assert!(engine.calls().is_empty());
}

// ----- exec ----------------------------------------------------------------------

fn exec_args(name: &str) -> ExecArgs {
    ExecArgs { castor_name: cn(name), shell: None }
}

#[test]
fn errors_when_castor_not_in_registry() {
    let (_store, registry) = fresh_registry();
    let engine = MockEngine::new();
    let err = exec::run(exec_args("ghost"), &engine, &registry).unwrap_err();
    assert!(err.to_string().contains("not found"));
    assert!(engine.calls().is_empty());
}

#[test]
fn calls_exec_shell_when_castor_present() {
    let (_store, mut registry) = fresh_registry();
    registry.insert(sample_entry("alpha", "img", "/tmp/x")).unwrap();
    let engine = MockEngine::new();
    exec::run(exec_args("alpha"), &engine, &registry).unwrap();
    assert_eq!(engine.calls(), vec![EngineCall::ExecShell(cn("alpha"), None)]);
}

#[test]
fn passes_explicit_shell_to_engine() {
    let (_store, mut registry) = fresh_registry();
    registry.insert(sample_entry("alpha", "img", "/tmp/x")).unwrap();
    let engine = MockEngine::new();
    let mut a = exec_args("alpha");
    a.shell = Some("/bin/ksh".into());
    exec::run(a, &engine, &registry).unwrap();
    assert_eq!(engine.calls(), vec![EngineCall::ExecShell(cn("alpha"), Some("/bin/ksh".into()))]);
}

#[test]
fn rejects_empty_shell_flag() {
    let (_store, mut registry) = fresh_registry();
    registry.insert(sample_entry("alpha", "img", "/tmp/x")).unwrap();
    let engine = MockEngine::new();
    let mut a = exec_args("alpha");
    a.shell = Some("  ".into());
    let err = exec::run(a, &engine, &registry).unwrap_err();
    assert!(err.to_string().contains("--shell"));
    assert!(engine.calls().is_empty());
}

#[test]
fn returns_ok_even_when_inner_shell_exits_non_zero() {
    let (_store, mut registry) = fresh_registry();
    registry.insert(sample_entry("alpha", "img", "/tmp/x")).unwrap();
    let engine = MockEngine::new();
    engine.exec_should_fail.set(true);
    let report = exec::run(exec_args("alpha"), &engine, &registry).unwrap();
    assert_eq!(report.warnings, vec!["(shell exited with code 1)"]);
}

// ----- list ----------------------------------------------------------------------

#[test]
fn empty_registry_skips_engine_query() {
    let (_store, registry) = fresh_registry();
    let engine = MockEngine::new();
    assert_eq!(list::run(&engine, &registry), ListOutput::NoCastors);
    assert!(engine.calls().is_empty());
}

#[test]
fn non_empty_registry_queries_engine_once() {
    let (_store, mut registry) = fresh_registry();
    registry.insert(sample_entry("alpha", "img", "/tmp/x")).unwrap();
    let engine = MockEngine::new();
    let _ = list::run(&engine, &registry);
    assert_eq!(engine.calls(), vec![EngineCall::ListManaged]);
}

#[test]
fn falls_back_to_unknown_status_when_engine_fails() {
    let (_store, mut registry) = fresh_registry();
    registry.insert(sample_entry("alpha", "img", "/tmp/x")).unwrap();
    let engine = MockEngine::new();
    engine.fail_list_managed.set(true);
    match list::run(&engine, &registry) {
        ListOutput::Rows(rows) => assert_eq!(rows[0].status, "unknown"),
        ListOutput::NoCastors => panic!("expected rows"),
    }
}

#[test]
fn list_shows_status_reported_by_engine() {
    let (_store, mut registry) = fresh_registry();
    registry.insert(sample_entry("alpha", "img", "/tmp/x")).unwrap();
    registry.insert(sample_entry("beta", "img", "/tmp/y")).unwrap();
    let engine = MockEngine::new();
    engine.managed.borrow_mut().push(ManagedContainer { name: cn("beta"), status: CastorStatus::Running });
    match list::run(&engine, &registry) {
        ListOutput::Rows(rows) => {
            assert_eq!(rows[0].name, "alpha");
            assert_eq!(rows[0].status, "missing");
            assert_eq!(rows[1].status, "running");
            assert_eq!(rows[1].dir, "/tmp/y");
        }
        ListOutput::NoCastors => panic!("expected rows"),
    }
}

#[test]
fn list_shows_creation_time_in_rfc3339() {
    let (_store, mut registry) = fresh_registry();
    registry.insert(sample_entry("alpha", "img", "/tmp/x")).unwrap();
    let mut later = sample_entry("beta", "img", "/tmp/y");
    later.created_at = CreatedAt { secs: 1_700_000_000, nanos: 500_000_000 };
    registry.insert(later).unwrap();
    let engine = MockEngine::new();
    match list::run(&engine, &registry) {
        ListOutput::Rows(rows) => {
            assert_eq!(rows[0].created.as_deref(), Some("1970-01-01T00:00:00+00:00"));
            assert_eq!(rows[1].created.as_deref(), Some("2023-11-14T22:13:20.500+00:00"));
        }
        ListOutput::NoCastors => panic!("expected rows"),
    }
}

#[test]
fn format_path_abbreviates_home() {
    let home = Some("/home/u".to_owned());
    assert_eq!(format_path_with("/home/u", &home), "~");
    assert_eq!(format_path_with("/home/u/src//proj/", &home), "~/src/proj");
    assert_eq!(format_path_with("/home/user2", &home), "/home/user2");
    assert_eq!(format_path_with("/srv", &None), "/srv");
}

// ----- infra and mitm ------------------------------------------------------------

#[test]
fn refresh_command_refreshes_proxy_policy() {
    let (_store, registry) = fresh_registry();
    let engine = MockEngine::new();
    infra::run(InfraArgs { command: InfraCommand::Refresh }, &engine, &registry).unwrap();
    assert_eq!(engine.calls(), vec![EngineCall::RefreshProxyPolicy]);
}

#[test]
fn refresh_command_surfaces_engine_errors() {
    let (_store, registry) = fresh_registry();
    let engine = MockEngine::new();
    engine.fail_refresh_proxy_policy.set(true);
    let err = infra::run(InfraArgs { command: InfraCommand::Refresh }, &engine, &registry).unwrap_err();
    assert!(err.to_string().contains("failed to refresh infrastructure policy"));
    assert_eq!(engine.calls(), vec![EngineCall::RefreshProxyPolicy]);
}

#[test]
fn ca_command_exports_certificate() {
    let engine = MockEngine::new();
    let out = "/tmp/castors-test/ca.cer".to_owned();
    let export = mitm::run(MitmArgs { command: MitmCommand::Ca(CaArgs { out: Some(out.clone()) }) }, &engine).unwrap();
    assert_eq!(export.out, out);
    assert_eq!(export.certificate, b"mock-ca-cert\n".to_vec());
    assert_eq!(engine.calls(), vec![EngineCall::ExportMitmCaCertificate]);
}

#[test]
fn ca_command_surfaces_engine_errors() {
    let engine = MockEngine::new();
    engine.fail_export_mitm_ca_certificate.set(true);
    let err = mitm::run(MitmArgs { command: MitmCommand::Ca(CaArgs { out: Some("/tmp/ca.cer".to_owned()) }) }, &engine).unwrap_err();
    assert!(err.to_string().contains("failed to generate MITM CA"));
    assert_eq!(engine.calls(), vec![EngineCall::ExportMitmCaCertificate]);
}

// ----- command steps ---------------------------------------------------------------

fn continued<F>(p: castors::cli::Progress<F>) -> F {
    match p {
        castors::cli::Progress::Continue(f) => f,
        castors::cli::Progress::Finish(r) => panic!("expected to continue, finished with {r:?}"),
    }
}

fn finished<F>(p: castors::cli::Progress<F>) -> Result<castors::cli::Report, castors::cli::CliError> {
    match p {
        castors::cli::Progress::Continue(_) => panic!("expected to finish"),
        castors::cli::Progress::Finish(r) => r,
    }
}

#[test]
fn add_steps_ensure_infra_then_create_then_save_then_refresh() {
    let (_store, mut registry) = fresh_registry();
    let global = GlobalConfig::default();
    let project = ProjectConfig::default();
    let flow = add::add_begin(args_with("/tmp/x", Some("img:1"), Some("alpha")), mount("/tmp/x"), &global, &project, &registry, now())
        .unwrap();
    assert_eq!(flow.next, Request::EnsureInfra);
    assert_eq!(flow.resolved, merge(&global, &project));
    let flow = continued(add::add_step(flow, Ok(()), &mut registry));
    assert_eq!(flow.next, Request::CreateAndStart);
    assert!(registry.is_empty());
    let flow = continued(add::add_step(flow, Ok(()), &mut registry));
    assert_eq!(flow.next, Request::SaveRegistry);
    assert_eq!(registry.get(&cn("alpha")).unwrap().image.as_str(), "img:1");
    let flow = continued(add::add_step(flow, Ok(()), &mut registry));
    assert_eq!(flow.next, Request::RefreshProxyPolicy);
    let report = finished(add::add_step(flow, Ok(()), &mut registry)).unwrap();
    assert_eq!(report.out, vec!["added castor 'alpha'".to_owned()]);
}

#[test]
fn add_step_create_failure_leaves_registry_empty() {
    let (_store, mut registry) = fresh_registry();
    let flow = add::add_begin(
        args_with("/tmp/x", Some("img:1"), Some("alpha")),
        mount("/tmp/x"),
        &GlobalConfig::default(),
        &ProjectConfig::default(),
        &registry,
        now(),
    )
    .unwrap();
    let flow = continued(add::add_step(flow, Ok(()), &mut registry));
    let err = finished(add::add_step(flow, Err("boom".to_owned()), &mut registry)).unwrap_err();
    assert_eq!(err.step, castors::cli::Step::Start);
    assert_eq!(err.full(), "failed to start container for castor 'alpha': boom");
    assert!(registry.is_empty());
}

#[test]
fn add_begin_reports_identity_error_text() {
    let (_store, mut registry) = fresh_registry();
    registry.insert(sample_entry("alpha", "img", "/tmp/x")).unwrap();
    let err = add::add_begin(
        args_with("/tmp/x", Some("img:1"), Some("alpha")),
        mount("/tmp/x"),
        &GlobalConfig::default(),
        &ProjectConfig::default(),
        &registry,
        now(),
    )
    .unwrap_err();
    assert_eq!(err.step, castors::cli::Step::Identity);
    assert!(err.message.contains("explicit name 'alpha' is already taken"));
    assert_eq!(err.cause, None);
}

#[test]
fn prune_steps_stop_in_name_order_and_abort_on_failure() {
    let (_store, mut registry) = fresh_registry();
    registry.insert(sample_entry("beta", "img", "/tmp/y")).unwrap();
    registry.insert(sample_entry("alpha", "img", "/tmp/x")).unwrap();
    let flow = prune::prune_begin(&registry);
    assert_eq!(flow.names.iter().map(|n| n.as_str()).collect::<Vec<_>>(), vec!["alpha", "beta"]);
    assert_eq!(flow.next, Request::StopAndRemove);
    let flow = continued(prune::prune_step(flow, Ok(()), &mut registry));
    assert_eq!(flow.stopped, 1);
    let err = finished(prune::prune_step(flow, Err("gone".to_owned()), &mut registry)).unwrap_err();
    assert_eq!(err.message, "failed to stop container for castor 'beta'");
    assert_eq!(registry.len(), 2);
}

#[test]
fn prune_steps_skip_refresh_when_nothing_registered() {
    let (_store, mut registry) = fresh_registry();
    let flow = prune::prune_begin(&registry);
    assert_eq!(flow.next, Request::SaveRegistry);
    let flow = continued(prune::prune_step(flow, Ok(()), &mut registry));
    assert_eq!(flow.next, Request::TeardownInfraIfIdle);
    let report = finished(prune::prune_step(flow, Ok(()), &mut registry)).unwrap();
    assert_eq!(report.out, vec!["pruned 0 castor(s)".to_owned()]);
}

#[test]
fn rm_steps_stop_before_unregistering() {
    let (_store, mut registry) = fresh_registry();
    registry.insert(sample_entry("alpha", "img", "/tmp/x")).unwrap();
    let flow = rm::rm_begin(RmArgs { castor_name: cn("alpha") });
    assert_eq!(flow.next, Request::StopAndRemove);
    let err = finished(rm::rm_step(flow, Err("busy".to_owned()), &mut registry)).unwrap_err();
    assert_eq!(err.step, castors::cli::Step::Stop);
    assert_eq!(registry.len(), 1);
    let flow = rm::rm_begin(RmArgs { castor_name: cn("alpha") });
    let flow = continued(rm::rm_step(flow, Ok(()), &mut registry));
    assert_eq!(flow.next, Request::SaveRegistry);
    assert!(registry.is_empty());
}

#[test]
fn exec_begin_hands_on_the_trimmed_shell() {
    let (_store, mut registry) = fresh_registry();
    registry.insert(sample_entry("alpha", "img", "/tmp/x")).unwrap();
    let req = exec::exec_begin(ExecArgs { castor_name: cn("alpha"), shell: Some("  /bin/bash \n".to_owned()) }, &registry)
        .unwrap();
    assert_eq!(req.shell.as_deref(), Some("/bin/bash"));
    let report = exec::exec_finish(&req.name, Ok(ShellExit { code: Some(3) })).unwrap();
    assert_eq!(report.warnings, vec!["(shell exited with code 3)".to_owned()]);
}

#[test]
fn restart_begin_checks_the_mount_against_the_given_home() {
    let (_store, mut registry) = fresh_registry();
    registry.insert(sample_entry("alpha", "img", "/home/u")).unwrap();
    let home = Some("/home/u".to_owned());
    let err = restart::restart_begin(
        RestartArgs { castor_name: cn("alpha") },
        &GlobalConfig::default(),
        &ProjectConfig::default(),
        &registry,
        &home,
        now(),
    )
    .unwrap_err();
    assert_eq!(err.step, castors::cli::Step::Validate);
    assert_eq!(err.message, "refusing unsafe mount directory");
    let flow = restart::restart_begin(
        RestartArgs { castor_name: cn("alpha") },
        &GlobalConfig::default(),
        &project_with(None, Some("new:tag")),
        &registry,
        &None,
        now(),
    )
    .unwrap();
    assert_eq!(flow.entry.image.as_str(), "new:tag");
    assert_eq!(flow.next, castors::cli::Request::EnsureInfra);
}

#[test]
fn add_failure_after_start_still_carries_the_secret_warning() {
    let (store, mut registry) = fresh_registry();
    let engine = MockEngine::new();
    engine.fail_refresh_proxy_policy.set(true);
    let mut global = GlobalConfig::default();
    global.network.allowed_hosts = vec!["api.openai.com".parse().unwrap()];
    global.secrets = vec![castors::config::schema::SecretInjection {
        host: "api.openai.com".parse().unwrap(),
        header: "Authorization".to_owned(),
        value_template: "Bearer {{value}}".to_owned(),
        value_from: castors::config::schema::SecretSource::Env("K".to_owned()),
    }];
    let err = add_run(args_with("/tmp/x", Some("img:1"), Some("alpha")), "/tmp/x", &global, &ProjectConfig::default(), &engine, &store, &mut registry)
        .unwrap_err();
    assert_eq!(err.message, "failed to refresh proxy policy");
    assert_eq!(err.notes.len(), 1);
    assert!(err.notes[0].starts_with("warning: 1 secret injection rule(s)"));
    engine.fail_refresh_proxy_policy.set(false);
    engine.fail_create_and_start.set(true);
    let (store2, mut registry2) = fresh_registry();
    let err = add_run(args_with("/tmp/x", Some("img:1"), Some("alpha")), "/tmp/x", &global, &ProjectConfig::default(), &engine, &store2, &mut registry2)
        .unwrap_err();
    assert!(err.notes.is_empty());
}

#[test]
fn ca_output_path_follows_the_home_directory() {
    let home = Some("/home/u".to_owned());
    assert_eq!(
        mitm::default_ca_output_path_in(&home).unwrap(),
        "/home/u/.castors/.state/infra/mitmproxy-ca-cert.cer"
    );
    let err = mitm::default_ca_output_path_in(&None).unwrap_err();
    assert_eq!(err.message, "unable to locate user home directory");
}
