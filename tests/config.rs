use qbit_cli::config::{config_candidates, CommandList, ConfigFormat, InstallSpec, LoadedProjectConfig, ProjectConfig};
use qbit_cli::error::{decimal_string, join_with_commas, InstallError};

fn sample() -> LoadedProjectConfig {
    LoadedProjectConfig {
        path: "qbit.toml".to_string(),
        data: ProjectConfig {
            scripts: vec![("Build".to_string(), CommandList::Single("make".to_string()))],
            install: vec![
                ("Postgres".to_string(), InstallSpec::Detailed {
                    version: Some("15".to_string()),
                    identifiers: vec![("apt".to_string(), "postgresql".to_string())],
                }),
                ("jq".to_string(), InstallSpec::Identifier("jq-cli".to_string())),
            ],
        },
    }
}

#[test]
fn install_entries_match_ignoring_case() {
    let cfg = sample();
    let (key, spec) = cfg.install_target("POSTGRES").expect("entry");
    assert_eq!(key, "Postgres");
    assert_eq!(spec.version(), Some("15"));
    assert_eq!(spec.identifier("apt"), Some("postgresql"));
    assert_eq!(spec.identifier("APT"), None);
    let (_, bare) = cfg.install_target("jq").expect("entry");
    assert_eq!(bare.version(), None);
    assert_eq!(bare.identifier("apt"), None);
    assert!(cfg.install_target("redis").is_none());
}

#[test]
fn install_entries_match_beyond_ascii_case() {
    let cfg = LoadedProjectConfig {
        path: "qbit.yml".to_string(),
        data: ProjectConfig {
            scripts: vec![],
            install: vec![("ÉDITEUR".to_string(), InstallSpec::Identifier("ed".to_string()))],
        },
    };
    let (key, _) = cfg.install_target("éditeur").expect("entry");
    assert_eq!(key, "ÉDITEUR");
}

#[test]
fn config_keys_must_be_distinct() {
    let one = || InstallSpec::Identifier("x".to_string());
    assert!(ProjectConfig::new(vec![], vec![("a".to_string(), one()), ("b".to_string(), one())]).is_some());
    assert!(ProjectConfig::new(vec![], vec![("a".to_string(), one()), ("a".to_string(), one())]).is_none());
    let dup_ids = InstallSpec::Detailed {
        version: None,
        identifiers: vec![("apt".to_string(), "x".to_string()), ("apt".to_string(), "y".to_string())],
    };
    assert!(ProjectConfig::new(vec![], vec![("a".to_string(), dup_ids)]).is_none());
    let scripts = vec![
        ("s".to_string(), CommandList::Single("a".to_string())),
        ("s".to_string(), CommandList::Single("b".to_string())),
    ];
    assert!(ProjectConfig::new(scripts, vec![]).is_none());
}

#[test]
fn scripts_match_exactly() {
    let cfg = sample();
    assert_eq!(cfg.script("Build").expect("script").commands(), vec!["make".to_string()]);
    assert!(cfg.script("build").is_none());
}

#[test]
fn config_files_in_order() {
    assert_eq!(
        config_candidates(),
        vec![("qbit.yml", ConfigFormat::Yaml), ("qbit.yaml", ConfigFormat::Yaml), ("qbit.toml", ConfigFormat::Toml)]
    );
}

#[test]
fn numbers_and_lists_in_messages() {
    assert_eq!(decimal_string(0), "0");
    assert_eq!(decimal_string(127), "127");
    assert_eq!(decimal_string(-40), "-40");
    assert_eq!(decimal_string(i32::MIN), "-2147483648");
    assert_eq!(decimal_string(i32::MAX), "2147483647");
    assert_eq!(join_with_commas(&vec![]), "");
    assert_eq!(join_with_commas(&vec!["a".to_string()]), "a");
    assert_eq!(InstallError::InstallerFailed { code: 127 }.to_string(), "Installer failed with exit code 127");
    assert_eq!(
        InstallError::EmptyOverride.to_string(),
        "QBIT_PACKAGE_MANAGER is set but empty. Set it to one of: apt-get, dnf, pacman, zypper, brew, winget, choco, scoop; or unset it."
    );
}
