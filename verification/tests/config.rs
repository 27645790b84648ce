use castors::base::domain::{CastorName, ImageTag};
use castors::config::identity::{auto_name_base, resolve_identity, IdentityError};
use castors::config::load::{
    global_path, load_global_at, load_project_at, project_path, ConfigError,
};
use castors::config::merge::merge;
use castors::config::schema::{
    EnvMap, GlobalConfig, GlobalDefaults, Host, HostParseError, NetworkConfig, ProjectCastor,
    ProjectConfig, ProxyMode, SecretInjection, SecretSource, SecretSourceParseError,
};

fn cn(s: &str) -> CastorName {
    CastorName::from_str(s).unwrap()
}

fn img(s: &str) -> ImageTag {
    ImageTag::from_str(s).unwrap()
}

fn host(s: &str) -> Host {
    s.parse().unwrap()
}

fn injection(host_str: &str, header: &str, var: &str) -> SecretInjection {
    SecretInjection {
        host: host(host_str),
        header: header.to_owned(),
        value_template: "Bearer {{value}}".to_owned(),
        value_from: SecretSource::Env(var.to_owned()),
    }
}

fn env_of(pairs: &[(&str, &str)]) -> EnvMap {
    let mut env = EnvMap::new();
    for (k, v) in pairs {
        env.insert((*k).to_owned(), (*v).to_owned());
    }
    env
}

fn project_with_image(image: &str) -> ProjectConfig {
    ProjectConfig {
        castor: ProjectCastor { image: Some(img(image)), ..Default::default() },
        ..Default::default()
    }
}

fn global_with_image(image: &str) -> GlobalConfig {
    GlobalConfig { defaults: GlobalDefaults { image: Some(img(image)) }, ..Default::default() }
}

// ----- schema ----------------------------------------------------------------

#[test]
fn host_accepts_bare_hostname() {
    assert_eq!(host("api.openai.com").as_str(), "api.openai.com");
}

#[test]
fn host_accepts_host_port() {
    assert_eq!(host("registry.npmjs.org:443").as_str(), "registry.npmjs.org:443");
}

#[test]
fn host_rejects_scheme() {
    assert!(matches!("https://github.com".parse::<Host>(), Err(HostParseError::HasScheme(_))));
}

#[test]
fn host_rejects_path() {
    assert!(matches!("github.com/foo".parse::<Host>(), Err(HostParseError::HasPath(_))));
}

#[test]
fn host_rejects_wildcard_and_dots() {
    assert_eq!(host("*.github.com").as_str(), "*.github.com");
    assert!(matches!("*github.com".parse::<Host>(), Err(HostParseError::InvalidWildcard(_))));
    assert!(matches!(
        ".github.com".parse::<Host>(),
        Err(HostParseError::HasLeadingOrTrailingDot(_))
    ));
}

#[test]
fn host_rejects_empty_and_whitespace() {
    assert_eq!("".parse::<Host>(), Err(HostParseError::Empty));
    assert!(matches!("github .com".parse::<Host>(), Err(HostParseError::HasWhitespace(_))));
}

#[test]
fn secret_source_parses_env_form() {
    let src: SecretSource = "env:OPENAI_API_KEY".parse().unwrap();
    assert_eq!(src, SecretSource::Env("OPENAI_API_KEY".to_owned()));
}

#[test]
fn secret_source_parses_file_form() {
    let src: SecretSource = "file:/run/secrets/openai".parse().unwrap();
    assert_eq!(src, SecretSource::File("/run/secrets/openai".to_owned()));
}

#[test]
fn secret_source_rejects_missing_scheme() {
    assert!(matches!(
        "OPENAI_API_KEY".parse::<SecretSource>(),
        Err(SecretSourceParseError::MissingScheme(_))
    ));
}

#[test]
fn secret_source_rejects_unknown_scheme() {
    assert!(matches!(
        "vault:foo".parse::<SecretSource>(),
        Err(SecretSourceParseError::UnknownScheme(_))
    ));
}

#[test]
fn secret_source_rejects_empty_value() {
    assert!(matches!("env:".parse::<SecretSource>(), Err(SecretSourceParseError::EmptyValue(_))));
}

#[test]
fn secret_source_text_round_trips() {
    for raw in ["env:OPENAI_API_KEY", "file:/run/secrets/openai"] {
        let src: SecretSource = raw.parse().unwrap();
        assert_eq!(src.to_string(), raw);
    }
}

// ----- merge -----------------------------------------------------------------

#[test]
fn allowed_hosts_are_unioned_and_deduped() {
    let global = GlobalConfig {
        network: NetworkConfig {
            allowed_hosts: vec![host("api.openai.com"), host("github.com")],
            ..Default::default()
        },
        ..Default::default()
    };
    let project = ProjectConfig {
        network: NetworkConfig {
            allowed_hosts: vec![host("github.com"), host("registry.npmjs.org")],
            ..Default::default()
        },
        ..Default::default()
    };
    let resolved = merge(&global, &project);
    let names: Vec<_> = resolved.allowed_hosts.iter().map(|h| h.as_str().to_owned()).collect();
    assert_eq!(names, vec!["api.openai.com", "github.com", "registry.npmjs.org"]);
}

#[test]
fn env_project_overrides_global_per_key() {
    let resolved = merge(
        &GlobalConfig { env: env_of(&[("RUST_LOG", "info"), ("KEEP_ME", "yes")]), ..Default::default() },
        &ProjectConfig { env: env_of(&[("RUST_LOG", "debug"), ("ADDED", "1")]), ..Default::default() },
    );
    assert_eq!(resolved.env.get("RUST_LOG").unwrap(), "debug");
    assert_eq!(resolved.env.get("KEEP_ME").unwrap(), "yes");
    assert_eq!(resolved.env.get("ADDED").unwrap(), "1");
}

#[test]
fn secrets_override_per_host_header_pair() {
    let global = GlobalConfig {
        secrets: vec![
            injection("api.openai.com", "Authorization", "GLOBAL_KEY"),
            injection("api.openai.com", "X-Org-Id", "GLOBAL_ORG"),
        ],
        ..Default::default()
    };
    let project = ProjectConfig {
        secrets: vec![
            injection("api.openai.com", "Authorization", "PROJECT_KEY"),
            injection("github.com", "Authorization", "GH_TOKEN"),
        ],
        ..Default::default()
    };
    let resolved = merge(&global, &project);
    assert_eq!(resolved.secrets.len(), 3);
    let openai_auth = resolved
        .secrets
        .iter()
        .find(|s| s.host.as_str() == "api.openai.com" && s.header == "Authorization")
        .unwrap();
    assert_eq!(openai_auth.value_from, SecretSource::Env("PROJECT_KEY".to_owned()));
}

#[test]
fn secret_override_is_case_insensitive_on_header_name() {
    let global = GlobalConfig {
        secrets: vec![injection("api.openai.com", "authorization", "GLOBAL")],
        ..Default::default()
    };
    let project = ProjectConfig {
        secrets: vec![injection("api.openai.com", "Authorization", "PROJECT")],
        ..Default::default()
    };
    let resolved = merge(&global, &project);
    assert_eq!(resolved.secrets.len(), 1);
    assert_eq!(resolved.secrets[0].value_from, SecretSource::Env("PROJECT".to_owned()));
}

#[test]
fn merge_of_two_empties_is_empty() {
    let resolved = merge(&GlobalConfig::default(), &ProjectConfig::default());
    assert!(resolved.allowed_hosts.is_empty());
    assert!(resolved.env.is_empty());
    assert_eq!(resolved.proxy, ProxyMode::Squid);
    assert!(resolved.secrets.is_empty());
}

#[test]
fn project_proxy_mode_overrides_global() {
    let mut global = GlobalConfig::default();
    global.network.proxy = Some(ProxyMode::Squid);
    let mut project = ProjectConfig::default();
    project.network.proxy = Some(ProxyMode::Mitm);
    let resolved = merge(&global, &project);
    assert_eq!(resolved.proxy, ProxyMode::Mitm);
}

#[test]
fn global_proxy_mode_applies_when_project_is_silent() {
    let mut global = GlobalConfig::default();
    global.network.proxy = Some(ProxyMode::Mitm);
    let resolved = merge(&global, &ProjectConfig::default());
    assert_eq!(resolved.proxy, ProxyMode::Mitm);
}

#[test]
fn merged_hosts_do_not_depend_on_layer_order() {
    let a = vec![host("b.example.com"), host("a.example.com")];
    let b = vec![host("c.example.com"), host("a.example.com")];
    let g1 = GlobalConfig { network: NetworkConfig { allowed_hosts: a.clone(), ..Default::default() }, ..Default::default() };
    let p1 = ProjectConfig { network: NetworkConfig { allowed_hosts: b.clone(), ..Default::default() }, ..Default::default() };
    let g2 = GlobalConfig { network: NetworkConfig { allowed_hosts: b, ..Default::default() }, ..Default::default() };
    let p2 = ProjectConfig { network: NetworkConfig { allowed_hosts: a, ..Default::default() }, ..Default::default() };
    assert_eq!(merge(&g1, &p1).allowed_hosts, merge(&g2, &p2).allowed_hosts);
}

// ----- identity ----------------------------------------------------------------

#[test]
fn auto_name_base_simple_dir() {
    assert_eq!(auto_name_base("/work/myrepo").as_str(), "myrepo");
}

#[test]
fn auto_name_base_lowercases_and_replaces_specials() {
    assert_eq!(auto_name_base("/work/My Repo!").as_str(), "my-repo");
}

#[test]
fn auto_name_base_collapses_runs_and_trims() {
    assert_eq!(auto_name_base("/work/--Foo  Bar--").as_str(), "foo-bar");
}

#[test]
fn auto_name_base_falls_back_when_dir_unusable() {
    assert_eq!(auto_name_base("/").as_str(), "castor");
    assert_eq!(auto_name_base("///").as_str(), "castor");
}

#[test]
fn cli_image_beats_project_and_global() {
    let global = global_with_image("global:tag");
    let project = project_with_image("project:tag");
    let (_name, image) =
        resolve_identity(Some(img("cli:tag")), None, &project, &global, "/work/myrepo", &[]).unwrap();
    assert_eq!(image.as_str(), "cli:tag");
}

#[test]
fn project_image_beats_global() {
    let global = global_with_image("global:tag");
    let project = project_with_image("project:tag");
    let (_name, image) = resolve_identity(None, None, &project, &global, "/work/myrepo", &[]).unwrap();
    assert_eq!(image.as_str(), "project:tag");
}

#[test]
fn global_image_used_as_last_resort() {
    let global = global_with_image("global:tag");
    let project = ProjectConfig::default();
    let (_name, image) = resolve_identity(None, None, &project, &global, "/work/myrepo", &[]).unwrap();
    assert_eq!(image.as_str(), "global:tag");
}

#[test]
fn no_image_anywhere_is_an_error() {
    let err = resolve_identity(
        None,
        None,
        &ProjectConfig::default(),
        &GlobalConfig::default(),
        "/work/myrepo",
        &[],
    )
    .unwrap_err();
    assert_eq!(err, IdentityError::NoImage);
}

#[test]
fn cli_name_takes_precedence_over_project() {
    let project = ProjectConfig {
        castor: ProjectCastor { name: Some(cn("from-project")), image: Some(img("img:tag")) },
        ..Default::default()
    };
    let (name, _image) = resolve_identity(
        None,
        Some(cn("from-cli")),
        &project,
        &GlobalConfig::default(),
        "/work/myrepo",
        &[],
    )
    .unwrap();
    assert_eq!(name.as_str(), "from-cli");
}

#[test]
fn explicit_name_collision_is_an_error() {
    let taken = vec![cn("from-cli")];
    let err = resolve_identity(
        Some(img("img:tag")),
        Some(cn("from-cli")),
        &ProjectConfig::default(),
        &GlobalConfig::default(),
        "/work/myrepo",
        &taken,
    )
    .unwrap_err();
    assert_eq!(err, IdentityError::NameTaken(cn("from-cli")));
}

#[test]
fn auto_name_starts_at_one_when_nothing_is_taken() {
    let (name, _image) = resolve_identity(
        Some(img("img:tag")),
        None,
        &ProjectConfig::default(),
        &GlobalConfig::default(),
        "/work/myrepo",
        &[],
    )
    .unwrap();
    assert_eq!(name.as_str(), "myrepo-1");
}

#[test]
fn auto_name_skips_taken_suffixes() {
    let taken = vec![cn("myrepo-1"), cn("myrepo-2"), cn("myrepo-4")];
    let (name, _image) = resolve_identity(
        Some(img("img:tag")),
        None,
        &ProjectConfig::default(),
        &GlobalConfig::default(),
        "/work/myrepo",
        &taken,
    )
    .unwrap();
    assert_eq!(name.as_str(), "myrepo-3");
}

#[test]
fn auto_name_uses_sanitized_basename() {
    let (name, _image) = resolve_identity(
        Some(img("img:tag")),
        None,
        &ProjectConfig::default(),
        &GlobalConfig::default(),
        "/work/My Repo!",
        &[],
    )
    .unwrap();
    assert_eq!(name.as_str(), "my-repo-1");
}

#[test]
fn project_name_used_when_cli_omits_it() {
    let project = ProjectConfig {
        castor: ProjectCastor { name: Some(cn("preferred")), image: Some(img("img:tag")) },
        ..Default::default()
    };
    let (name, _image) =
        resolve_identity(None, None, &project, &GlobalConfig::default(), "/work/myrepo", &[]).unwrap();
    assert_eq!(name.as_str(), "preferred");
}

#[test]
fn project_name_collision_is_an_error_not_an_increment() {
    let project = ProjectConfig {
        castor: ProjectCastor { name: Some(cn("preferred")), image: Some(img("img:tag")) },
        ..Default::default()
    };
    let taken = vec![cn("preferred")];
    let err = resolve_identity(None, None, &project, &GlobalConfig::default(), "/work/myrepo", &taken)
        .unwrap_err();
    assert_eq!(err, IdentityError::NameTaken(cn("preferred")));
}

#[test]
fn identity_error_messages() {
    assert!(IdentityError::NoImage.to_string().starts_with("no image specified"));
    assert!(IdentityError::NameTaken(cn("x")).to_string().contains("already taken"));
}

// ----- load --------------------------------------------------------------------

#[test]
fn project_path_appends_castors_config_yaml() {
    let p = project_path("/work/proj");
    assert!(p.ends_with(".castors/config.yaml"));
    assert_eq!(p, "/work/proj/.castors/config.yaml");
}

#[test]
fn global_path_lives_under_dot_castors_in_home() {
    let p = global_path().expect("test environment should expose a HOME");
    assert!(p.ends_with(".castors/config.yaml"));
}

#[test]
fn load_at_returns_default_when_file_missing() {
    let cfg = load_global_at("/nowhere/missing.yaml", None);
    assert_eq!(cfg, GlobalConfig::default());
}

#[test]
fn load_project_returns_default_when_castors_dir_missing() {
    let cfg = load_project_at("/nowhere/.castors/config.yaml", None);
    assert_eq!(cfg, ProjectConfig::default());
}

#[test]
fn load_global_resolves_relative_secret_files_against_config_dir() {
    let doc = GlobalConfig {
        secrets: vec![SecretInjection {
            host: host("api.openai.com"),
            header: "Authorization".to_owned(),
            value_template: "Bearer {{value}}".to_owned(),
            value_from: SecretSource::File("secrets/openai".to_owned()),
        }],
        ..Default::default()
    };
    let cfg = load_global_at("/home/u/.castors/config.yaml", Some(doc));
    assert_eq!(
        cfg.secrets[0].value_from,
        SecretSource::File("/home/u/.castors/secrets/openai".to_owned())
    );
}

#[test]
fn load_project_leaves_absolute_secret_files_unchanged() {
    let doc = ProjectConfig {
        secrets: vec![SecretInjection {
            host: host("api.openai.com"),
            header: "Authorization".to_owned(),
            value_template: "Bearer {{value}}".to_owned(),
            value_from: SecretSource::File("/run/secrets/openai".to_owned()),
        }],
        ..Default::default()
    };
    let cfg = load_project_at("/work/proj/.castors/config.yaml", Some(doc));
    assert_eq!(cfg.secrets[0].value_from, SecretSource::File("/run/secrets/openai".to_owned()));
}

#[test]
fn config_error_messages() {
    let e = ConfigError::Parse { path: "/x/config.yaml".to_owned(), message: "bad".to_owned() };
    assert_eq!(e.to_string(), "failed to parse config at /x/config.yaml");
    assert_eq!(
        ConfigError::NoDefaultPath.to_string(),
        "could not determine default global config path"
    );
}

#[test]
fn std_parse_reads_secret_sources() {
    assert_eq!("env:TOKEN".parse::<SecretSource>(), Ok(SecretSource::Env("TOKEN".to_owned())));
    assert!(matches!("TOKEN".parse::<SecretSource>(), Err(SecretSourceParseError::MissingScheme(_))));
    assert_eq!(
        " api.example.com".parse::<Host>(),
        Err(HostParseError::HasWhitespace("api.example.com".to_owned()))
    );
    assert!(matches!("api.example.com\n".parse::<Host>(), Err(HostParseError::HasWhitespace(_))));
    assert_eq!("api.example.com".parse::<Host>().map(|h| h.as_str().to_owned()), Ok("api.example.com".to_owned()));
    assert_eq!("   ".parse::<Host>(), Err(HostParseError::Empty));
}

#[test]
fn auto_name_base_is_idempotent_and_well_shaped() {
    for dir in ["/work/My Repo!", "/", "/srv/__x--y__", "/a/B.C-d"] {
        let base = auto_name_base(dir);
        let again = auto_name_base(base.as_str());
        assert_eq!(again.as_str(), base.as_str());
        let s = base.as_str();
        assert!(!s.is_empty() && !s.starts_with('-') && !s.ends_with('-') && !s.contains("--"));
        assert!(s.chars().all(|c| c.is_ascii_lowercase() || c.is_ascii_digit() || c == '_' || c == '-'));
    }
}

#[test]
fn host_text_parses_back_to_the_same_host() {
    for raw in ["api.openai.com", "registry.npmjs.org:443", "*.github.com"] {
        let h = host(raw);
        assert_eq!(h.as_str().parse::<Host>(), Ok(h.clone()));
    }
}

#[test]
fn merge_ignores_defaults_and_castor_sections() {
    let mut global = GlobalConfig::default();
    global.network.proxy = Some(ProxyMode::Mitm);
    let project = ProjectConfig::default();
    let mut global2 = GlobalConfig::default();
    global2.network.proxy = Some(ProxyMode::Mitm);
    global2.defaults = GlobalDefaults { image: Some(ImageTag::from_str("img:9").unwrap()) };
    let project2 = ProjectConfig {
        castor: ProjectCastor { name: Some(cn("zed")), image: None },
        ..ProjectConfig::default()
    };
    assert_eq!(merge(&global, &project), merge(&global2, &project2));
}

#[test]
fn global_path_follows_the_home_directory() {
    let home = Some("/home/u".to_owned());
    assert_eq!(castors::config::load::global_path_in(&home).unwrap(), "/home/u/.castors/config.yaml");
    assert!(matches!(castors::config::load::global_path_in(&None), Err(castors::config::load::ConfigError::NoDefaultPath)));
}
