use qbit_cli::release::{
    archive_format, find_release_asset, github_api_url, installer_script, parse_version,
    platform_asset_name, upgrade_repository, ArchiveFormat, GithubAsset, GithubRelease,
};
use qbit_cli::selection::Platform;
use semver::Version;

#[test]
fn parse_version_accepts_v_prefix() {
    let version = parse_version("v1.2.3").expect("version");
    assert_eq!(version, Version::new(1, 2, 3));
}

#[test]
fn parse_version_rejects_invalid_input() {
    let err = parse_version("release-1.2").expect_err("must fail");
    assert!(err.to_string().contains("invalid semantic version"));
}

#[test]
fn find_release_asset_matches_expected_name() {
    let release = GithubRelease {
        tag_name: "v1.0.0".to_string(),
        assets: vec![
            GithubAsset {
                name: "qbit-linux-setup.tar.gz".to_string(),
                browser_download_url: "https://example.test/linux".to_string(),
            },
            GithubAsset {
                name: "qbit-windows-setup.zip".to_string(),
                browser_download_url: "https://example.test/windows".to_string(),
            },
        ],
    };

    let found = find_release_asset(&release, "qbit-windows-setup.zip").expect("asset");
    assert_eq!(found.browser_download_url, "https://example.test/windows");
}

#[test]
fn missing_asset_lists_what_is_there() {
    let release = GithubRelease {
        tag_name: "v1.0.0".to_string(),
        assets: vec![
            GithubAsset { name: "a.zip".to_string(), browser_download_url: "u".to_string() },
            GithubAsset { name: "b.tar.gz".to_string(), browser_download_url: "v".to_string() },
        ],
    };
    let err = find_release_asset(&release, "c.zip").expect_err("must fail");
    assert_eq!(
        err.to_string(),
        "Release asset `c.zip` was not found. Available assets: a.zip, b.tar.gz"
    );
    let empty = GithubRelease { tag_name: "v1".to_string(), assets: vec![] };
    let err = find_release_asset(&empty, "c.zip").expect_err("must fail");
    assert!(err.to_string().ends_with("<no assets>"));
}

#[test]
fn upgrade_locations() {
    assert_eq!(upgrade_repository(None), "qbit-click/qbit-cli");
    assert_eq!(upgrade_repository(Some("  ")), "qbit-click/qbit-cli");
    assert_eq!(upgrade_repository(Some(" me/fork ")), "me/fork");
    assert_eq!(github_api_url("me/fork"), "https://api.github.com/repos/me/fork/releases/latest");
    assert_eq!(platform_asset_name(Platform::Windows), "qbit-windows-setup.zip");
    assert_eq!(platform_asset_name(Platform::MacOs), "qbit-macos-setup.tar.gz");
    assert_eq!(platform_asset_name(Platform::Linux), "qbit-linux-setup.tar.gz");
    assert_eq!(installer_script(Platform::Linux), Some("install.sh"));
    assert_eq!(installer_script(Platform::Other), None);
}

#[test]
fn archive_formats_by_extension() {
    assert_eq!(archive_format("x.zip").expect("zip"), ArchiveFormat::Zip);
    assert_eq!(archive_format("x.tar.gz").expect("tgz"), ArchiveFormat::TarGz);
    let err = archive_format("x.rar").expect_err("must fail");
    assert_eq!(err.to_string(), "Unsupported release archive format: x.rar");
}
