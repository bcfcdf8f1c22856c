use qbit_cli::command::InstallCommand;
use qbit_cli::error::ErrorKind;
use qbit_cli::manager::{build_brew_identifier, PackageManager};

#[test]
fn brew_builds_versioned_formula_when_not_already_versioned() {
    let id = build_brew_identifier("python", Some("3.12")).expect("brew id");
    assert_eq!(id, "python@3.12");
}

#[test]
fn brew_rejects_conflicting_version() {
    let err = build_brew_identifier("python@3.11", Some("3.12")).expect_err("must fail");
    assert!(err.to_string().contains("already includes version"));
}

#[test]
fn brew_keeps_consistent_pinned_version() {
    let id = build_brew_identifier("python@3.12", Some("3.12")).expect("brew id");
    assert_eq!(id, "python@3.12");
}

#[test]
fn brew_without_version_keeps_identifier() {
    assert_eq!(build_brew_identifier("python", None).expect("brew id"), "python");
}

#[test]
fn brew_rejects_underivable_formula() {
    let err = build_brew_identifier("tap/", Some("1.0")).expect_err("must fail");
    assert_eq!(err.kind(), ErrorKind::InvalidInput);
    assert!(err.to_string().contains("Cannot derive a versioned Homebrew formula"));
    let err = build_brew_identifier("my formula", Some("1.0")).expect_err("must fail");
    assert_eq!(err.kind(), ErrorKind::InvalidInput);
}

#[test]
fn apt_and_zypper_pin_with_equals() {
    for pm in [PackageManager::AptGet, PackageManager::Zypper] {
        let cmd = pm.build_install_cmd("pkg", Some("1.2"), false).expect("command");
        assert!(cmd.args.iter().any(|a| a == "pkg=1.2"));
        assert!(cmd.render().contains("pkg=1.2"));
    }
}

#[test]
fn dnf_pins_with_dash() {
    let cmd = PackageManager::Dnf.build_install_cmd("pkg", Some("1.2"), false).expect("command");
    assert_eq!(cmd.program, "dnf");
    assert_eq!(cmd.args, vec!["install".to_string(), "pkg-1.2".to_string()]);
    assert_eq!(cmd.render(), "dnf install pkg-1.2");
}

#[test]
fn system_managers_use_sudo_when_available() {
    let cmd = PackageManager::AptGet.build_install_cmd(" pkg ", None, true).expect("command");
    assert_eq!(cmd.program, "sudo");
    assert_eq!(cmd.args, vec!["apt-get".to_string(), "install".to_string(), "pkg".to_string()]);
    let cmd = PackageManager::Pacman.build_install_cmd("pkg", None, true).expect("command");
    assert_eq!(cmd.render(), "sudo pacman -S pkg");
    let cmd = PackageManager::Brew.build_install_cmd("pkg", None, true).expect("command");
    assert_eq!(cmd.render(), "brew install pkg");
}

#[test]
fn pacman_and_scoop_refuse_versions() {
    for pm in [PackageManager::Pacman, PackageManager::Scoop] {
        for v in ["1.2", "", "  ", "latest"] {
            let err = pm.build_install_cmd("pkg", Some(v), false).expect_err("must fail");
            assert_eq!(err.kind(), ErrorKind::UnsupportedOperation);
        }
    }
}

#[test]
fn invalid_identifier_and_version_are_rejected() {
    let err = PackageManager::Winget.build_install_cmd("   ", None, false).expect_err("must fail");
    assert_eq!(err.kind(), ErrorKind::InvalidInput);
    assert!(err.to_string().contains("Resolved identifier is empty for `winget`"));
    let err = PackageManager::Dnf.build_install_cmd("pkg", Some("  "), false).expect_err("must fail");
    assert_eq!(err.kind(), ErrorKind::InvalidInput);
    let err = PackageManager::Chocolatey
        .build_install_cmd("pkg", Some("1 2"), false)
        .expect_err("must fail");
    assert_eq!(err.kind(), ErrorKind::InvalidInput);
    assert!(err.to_string().contains("Version `1 2` contains whitespace"));
}

#[test]
fn winget_and_choco_pass_version_option() {
    let cmd = PackageManager::Winget.build_install_cmd("Vendor.App", Some(" 2.0 "), true).expect("command");
    assert_eq!(
        cmd.render(),
        "winget install --id Vendor.App --exact --accept-source-agreements --accept-package-agreements --version 2.0"
    );
    let cmd = PackageManager::Chocolatey.build_install_cmd("git", Some("2.4"), false).expect("command");
    assert_eq!(cmd.render(), "choco install git --version 2.4");
    let cmd = PackageManager::Scoop.build_install_cmd("git", None, false).expect("command");
    assert_eq!(cmd.render(), "scoop install git");
}

#[test]
fn yes_flag_goes_after_install_token() {
    let mut cmd = PackageManager::AptGet.build_install_cmd("pkg", None, true).expect("command");
    PackageManager::AptGet.apply_yes_flag(&mut cmd);
    assert_eq!(cmd.render(), "sudo apt-get install -y pkg");
    let mut cmd = PackageManager::Pacman.build_install_cmd("pkg", None, false).expect("command");
    PackageManager::Pacman.apply_yes_flag(&mut cmd);
    assert_eq!(cmd.render(), "pacman -S --noconfirm pkg");
    let mut cmd = PackageManager::Winget.build_install_cmd("A.B", None, false).expect("command");
    PackageManager::Winget.apply_yes_flag(&mut cmd);
    assert_eq!(cmd.args[1], "--silent");
    let mut cmd = PackageManager::Brew.build_install_cmd("pkg", None, false).expect("command");
    PackageManager::Brew.apply_yes_flag(&mut cmd);
    assert_eq!(cmd.render(), "brew install pkg");
}

#[test]
fn yes_flag_is_idempotent() {
    for pm in [
        PackageManager::AptGet,
        PackageManager::Dnf,
        PackageManager::Pacman,
        PackageManager::Zypper,
        PackageManager::Brew,
        PackageManager::Winget,
        PackageManager::Chocolatey,
        PackageManager::Scoop,
    ] {
        let mut once = pm.build_install_cmd("pkg", None, false).expect("command");
        pm.apply_yes_flag(&mut once);
        let mut twice = once.clone();
        pm.apply_yes_flag(&mut twice);
        assert_eq!(once.args, twice.args);
    }
}

#[test]
fn yes_flag_is_appended_without_subcommand() {
    let mut cmd = InstallCommand::new("dnf".to_string(), vec!["pkg".to_string()]);
    PackageManager::Dnf.apply_yes_flag(&mut cmd);
    assert_eq!(cmd.args, vec!["pkg".to_string(), "-y".to_string()]);
}

#[test]
fn render_quotes_unsafe_tokens() {
    let cmd = InstallCommand::new(
        "tool".to_string(),
        vec!["".to_string(), "a b".to_string(), "say \"hi\"\\".to_string(), "x@1=2:/._-".to_string()],
    );
    assert_eq!(cmd.render(), "tool \"\" \"a b\" \"say \\\"hi\\\"\\\\\" x@1=2:/._-");
}

#[test]
fn manager_names_and_keys() {
    assert_eq!(PackageManager::Chocolatey.name(), "choco");
    assert_eq!(PackageManager::Chocolatey.executable(), "choco");
    assert_eq!(PackageManager::AptGet.config_keys(), vec!["apt-get", "apt"]);
    assert_eq!(PackageManager::Brew.config_keys(), vec!["brew", "homebrew"]);
}
