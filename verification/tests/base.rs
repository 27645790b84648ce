use castors::base::domain::{CastorName, ImageTag, MountDir};
use castors::base::paths::{
    castors_home, castors_home_in, infra_dir, registry_path, state_dir, state_dir_in, state_entry_in,
    state_lock_path, CASTORS_HOME_SUBDIR,
};
use castors::base::registry::{default_path, CastorEntry, CreatedAt, Registry, RegistryError};

fn sample_entry(name: &str) -> CastorEntry {
    CastorEntry {
        name: CastorName::from_str(name).unwrap(),
        image: ImageTag::from_str("example:latest").unwrap(),
        mount_dir: MountDir::from_str("./proj").unwrap(),
        created_at: CreatedAt { secs: 0, nanos: 0 },
    }
}

fn registry_names(registry: &Registry) -> Vec<String> {
    registry.list().iter().map(|e| e.name.as_str().to_owned()).collect()
}

#[test]
fn castor_name_accepts_valid_identifiers() {
    assert!(CastorName::from_str("my-castor_1").is_ok());
}

#[test]
fn castor_name_rejects_empty_and_spaces() {
    assert!(CastorName::from_str("").is_err());
    assert!(CastorName::from_str("has space").is_err());
}

#[test]
fn image_tag_rejects_empty() {
    assert!(ImageTag::from_str("").is_err());
    assert!(ImageTag::from_str(" ").is_err());
}

#[test]
fn mount_dir_accepts_any_non_empty_path() {
    assert!(MountDir::from_str("./some/path").is_ok());
    assert!(MountDir::from_str("").is_err());
}

#[test]
fn mount_dir_rejects_filesystem_root() {
    let mount = MountDir::from_str("/").unwrap();
    assert!(mount.validate_safe_source().is_err());
}

#[test]
fn mount_dir_rejects_docker_socket() {
    let mount = MountDir::from_str("/var/run/docker.sock").unwrap();
    let err = mount.validate_safe_source().unwrap_err();
    assert!(err.contains("Docker control path"));
}

#[test]
fn mount_dir_rejects_entire_home_directory_when_available() {
    let Some(home) = dirs::home_dir() else {
        return;
    };
    let mount = MountDir::from_str(&home.to_string_lossy()).unwrap();
    let err = mount.validate_safe_source().unwrap_err();
    assert!(err.contains("entire home directory"));
}

#[test]
fn mount_dir_rejects_sensitive_home_paths_when_available() {
    let Some(home) = dirs::home_dir() else {
        return;
    };
    let mount = MountDir::from_str(&home.join(".ssh/project").to_string_lossy()).unwrap();
    let err = mount.validate_safe_source().unwrap_err();
    assert!(err.contains("sensitive host path"));
}

#[test]
fn mount_dir_accepts_ordinary_project_directory() {
    let mount = MountDir::from_str("/srv/projects/demo").unwrap();
    assert_eq!(mount.validate_safe_source(), Ok(()));
}

#[test]
fn castors_home_ends_in_dot_castors() {
    let p = castors_home().expect("test environment should expose a HOME");
    assert!(p.ends_with(CASTORS_HOME_SUBDIR));
}

#[test]
fn state_dir_lives_under_castors_home() {
    let p = state_dir().expect("test environment should expose a HOME");
    assert!(p.ends_with(".castors/.state"));
}

#[test]
fn registry_path_lives_under_state_dir() {
    let p = registry_path().expect("test environment should expose a HOME");
    assert!(p.ends_with(".castors/.state/registry.json"));
}

#[test]
fn infra_dir_lives_under_state_dir() {
    let p = infra_dir().expect("test environment should expose a HOME");
    assert!(p.ends_with(".castors/.state/infra"));
}

#[test]
fn state_lock_path_lives_under_state_dir() {
    let p = state_lock_path().expect("test environment should expose a HOME");
    assert!(p.ends_with(".castors/.state/state.lock"));
}

#[test]
fn default_path_lives_under_castors_state_dir() {
    let p = default_path().expect("test environment should expose a HOME");
    assert!(p.ends_with(".castors/.state/registry.json"));
}

#[test]
fn load_from_missing_path_yields_empty_registry() {
    let registry = Registry::new("/tmp/castors-test/registry.json");
    assert!(registry.is_empty());
    assert_eq!(registry.path(), "/tmp/castors-test/registry.json");
}

#[test]
fn insert_and_get_roundtrip() {
    let mut registry = Registry::new("registry.json");
    let entry = sample_entry("alpha");
    registry.insert(entry.clone()).unwrap();
    let fetched = registry.get(&entry.name).unwrap();
    assert_eq!(fetched, &entry);
}

#[test]
fn insert_rejects_duplicate_names() {
    let mut registry = Registry::new("registry.json");
    registry.insert(sample_entry("alpha")).unwrap();
    let err = registry.insert(sample_entry("alpha")).unwrap_err();
    assert!(matches!(err, RegistryError::AlreadyExists(_)));
}

#[test]
fn remove_returns_entry_and_absents_it() {
    let mut registry = Registry::new("registry.json");
    let entry = sample_entry("alpha");
    registry.insert(entry.clone()).unwrap();
    let removed = registry.remove(&entry.name).unwrap();
    assert_eq!(removed, entry);
    assert!(registry.get(&entry.name).is_none());
}

#[test]
fn remove_errors_when_name_missing() {
    let mut registry = Registry::new("registry.json");
    let err = registry.remove(&CastorName::from_str("ghost").unwrap()).unwrap_err();
    assert!(matches!(err, RegistryError::NotFound(_)));
}

#[test]
fn list_is_sorted_by_name() {
    let mut registry = Registry::new("registry.json");
    registry.insert(sample_entry("charlie")).unwrap();
    registry.insert(sample_entry("alpha")).unwrap();
    registry.insert(sample_entry("bravo")).unwrap();
    assert_eq!(registry_names(&registry), vec!["alpha", "bravo", "charlie"]);
}

#[test]
fn clear_removes_everything() {
    let mut registry = Registry::new("registry.json");
    registry.insert(sample_entry("alpha")).unwrap();
    registry.insert(sample_entry("beta")).unwrap();
    registry.clear();
    assert!(registry.is_empty());
}

#[test]
fn remove_after_insert_restores_previous_entries() {
    let mut registry = Registry::new("registry.json");
    registry.insert(sample_entry("alpha")).unwrap();
    let before = registry_names(&registry);
    registry.insert(sample_entry("zulu")).unwrap();
    registry.remove(&CastorName::from_str("zulu").unwrap()).unwrap();
    assert_eq!(registry_names(&registry), before);
    assert_eq!(registry.len(), 1);
}

#[test]
fn registry_error_messages() {
    let n = CastorName::from_str("alpha").unwrap();
    assert_eq!(RegistryError::AlreadyExists(n.clone()).to_string(), "castor alpha already exists");
    assert_eq!(RegistryError::NotFound(n).to_string(), "castor alpha not found");
    assert_eq!(
        RegistryError::NoDefaultPath.to_string(),
        "could not determine default registry path"
    );
}

#[test]
fn absolute_mount_dir_stays_absolute() {
    let dir = MountDir::from_str("/srv/project").unwrap();
    let abs = dir.to_absolute().expect("an absolute path needs no current directory");
    assert_eq!(abs.as_path(), "/srv/project");
    let tmp = MountDir::from_str("/tmp/x").unwrap().to_absolute().unwrap();
    assert_eq!(tmp.as_path(), "/tmp/x");
    let rel = MountDir::from_str("project").unwrap();
    if let Ok(abs) = rel.to_absolute() {
        assert!(abs.as_path().starts_with('/'));
        assert!(abs.as_path().ends_with("/project"));
    }
}

#[test]
fn state_locations_follow_the_home_directory() {
    let home = Some("/home/u".to_owned());
    assert_eq!(castors_home_in(&home).as_deref(), Some("/home/u/.castors"));
    assert_eq!(state_dir_in(&home).as_deref(), Some("/home/u/.castors/.state"));
    assert_eq!(state_entry_in(&home, "registry.json").as_deref(), Some("/home/u/.castors/.state/registry.json"));
    assert_eq!(state_dir_in(&None), None);
    assert_eq!(state_entry_in(&None, "state.lock"), None);
}

#[test]
fn std_parse_agrees_with_from_str() {
    assert_eq!("alpha-1".parse::<CastorName>().unwrap().as_str(), "alpha-1");
    assert!("bad name".parse::<CastorName>().is_err());
    assert!("  ".parse::<ImageTag>().is_err());
    assert_eq!("img:latest".parse::<ImageTag>().unwrap().as_str(), "img:latest");
    assert!("".parse::<MountDir>().is_err());
}

#[test]
fn insert_grows_the_registry_by_one() {
    let mut registry = Registry::new("/tmp/castors-test/registry.json");
    registry.insert(sample_entry("alpha")).unwrap();
    assert_eq!(registry.len(), 1);
    registry.insert(sample_entry("beta")).unwrap();
    assert_eq!(registry.len(), 2);
    assert!(matches!(registry.insert(sample_entry("alpha")), Err(RegistryError::AlreadyExists(_))));
    assert_eq!(registry.len(), 2);
}
