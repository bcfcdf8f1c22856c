use qbit_cli::error::ErrorKind;
use qbit_cli::manager::PackageManager;
use qbit_cli::selection::{detect_package_manager, detection_candidates, package_manager_from_name, Platform};

#[test]
fn names_and_aliases_resolve_ignoring_case() {
    assert_eq!(package_manager_from_name(" APT "), Some(PackageManager::AptGet));
    assert_eq!(package_manager_from_name("HomeBrew"), Some(PackageManager::Brew));
    assert_eq!(package_manager_from_name("chocolatey"), Some(PackageManager::Chocolatey));
    assert_eq!(package_manager_from_name("yum"), None);
}

#[test]
fn candidates_follow_platform_order() {
    assert_eq!(
        detection_candidates(Platform::Linux),
        vec![PackageManager::AptGet, PackageManager::Dnf, PackageManager::Pacman, PackageManager::Zypper]
    );
    assert_eq!(detection_candidates(Platform::MacOs), vec![PackageManager::Brew]);
    assert_eq!(
        detection_candidates(Platform::Windows),
        vec![PackageManager::Winget, PackageManager::Chocolatey, PackageManager::Scoop]
    );
}

#[test]
fn detection_picks_first_available_candidate() {
    let available = vec![PackageManager::Zypper, PackageManager::Dnf];
    let pm = detect_package_manager(None, Platform::Linux, &available).expect("manager");
    assert_eq!(pm, PackageManager::Dnf);
}

#[test]
fn detection_reports_every_checked_candidate() {
    let err = detect_package_manager(None, Platform::Windows, &vec![]).expect_err("must fail");
    assert_eq!(err.kind(), ErrorKind::NoManagerFound);
    assert!(err.to_string().contains("Checked: winget, choco, scoop."));
}

#[test]
fn override_must_be_known_and_available() {
    let available = vec![PackageManager::Winget];
    assert_eq!(
        detect_package_manager(Some("WinGet"), Platform::Linux, &available).expect("manager"),
        PackageManager::Winget
    );
    let err = detect_package_manager(Some("yum"), Platform::Linux, &available).expect_err("unknown");
    assert_eq!(err.kind(), ErrorKind::UnknownManager);
    assert!(err.to_string().contains("`yum`"));
    let err = detect_package_manager(Some("brew"), Platform::MacOs, &available).expect_err("unavailable");
    assert_eq!(err.kind(), ErrorKind::ManagerUnavailable);
    let err = detect_package_manager(Some("  "), Platform::Linux, &available).expect_err("empty");
    assert_eq!(err.kind(), ErrorKind::UnknownManager);
}
