//! Self-upgrade decisions: which release asset to fetch, how to unpack it,
//! and which installer script to run.
use vstd::prelude::*;
use vstd::string::*;

use crate::error::comma_joined;
use crate::selection::Platform;
use crate::text::{str_eq, trim, trim_str};

verus! {

/// `semver::Version`, carried through opaquely: its ordering is semver's own.
#[verifier::external_type_specification]
#[verifier::external_body]
pub struct ExVersion(semver::Version);

/// `semver::Error`, the parse failure of `semver::Version::parse`.
#[verifier::external_type_specification]
#[verifier::external_body]
pub struct ExSemverError(semver::Error);

/// Whether `semver` accepts `text` as a semantic version.
pub uninterp spec fn semver_accepts(text: Seq<char>) -> bool;

/// Relies on `semver::Version::parse`: it succeeds exactly on the texts that
/// the SemVer grammar accepts, and depends on the text alone.
pub assume_specification[ semver::Version::parse ](text: &str) -> (r: Result<
    semver::Version,
    semver::Error,
>)
    ensures
        r is Ok <==> semver_accepts(text@),
;

/// The repository asked for when no override is set.
pub const DEFAULT_REPOSITORY: &'static str = "qbit-click/qbit-cli";

/// A published release and its downloadable assets.
#[derive(Debug, Clone)]
pub struct GithubRelease {
    pub tag_name: String,
    pub assets: Vec<GithubAsset>,
}

/// One downloadable file of a release.
#[derive(Debug, Clone)]
pub struct GithubAsset {
    pub name: String,
    pub browser_download_url: String,
}

/// How a release archive is packed.
#[derive(Debug, Clone, Copy, PartialEq, Eq, Structural)]
pub enum ArchiveFormat {
    Zip,
    TarGz,
}

/// What `UpgradeError` holds, with texts as character sequences.
pub ghost enum UpgradeFailure {
    InvalidVersion { text: Seq<char> },
    AssetNotFound { expected: Seq<char>, available: Seq<Seq<char>> },
    UnsupportedArchive { name: Seq<char> },
}

impl UpgradeFailure {
    pub open spec fn message(self) -> Seq<char> {
        match self {
            UpgradeFailure::InvalidVersion { text } => "invalid semantic version: `"@ + text
                + "`"@,
            UpgradeFailure::AssetNotFound { expected, available } => "Release asset `"@ + expected
                + "` was not found. Available assets: "@ + if available.len() == 0 {
                "<no assets>"@
            } else {
                comma_joined(available)
            },
            UpgradeFailure::UnsupportedArchive { name } => "Unsupported release archive format: "@
                + name,
        }
    }
}

/// A failure while planning an upgrade.
#[derive(Debug, Clone)]
pub enum UpgradeError {
    InvalidVersion { text: String },
    AssetNotFound { expected: String, available: Vec<String> },
    UnsupportedArchive { name: String },
}

impl View for UpgradeError {
    type V = UpgradeFailure;

    open spec fn view(&self) -> UpgradeFailure {
        match self {
            UpgradeError::InvalidVersion { text } => UpgradeFailure::InvalidVersion { text: text@ },
            UpgradeError::AssetNotFound { expected, available } => UpgradeFailure::AssetNotFound {
                expected: expected@,
                available: available@.map_values(|s: String| s@),
            },
            UpgradeError::UnsupportedArchive { name } => UpgradeFailure::UnsupportedArchive {
                name: name@,
            },
        }
    }
}

impl UpgradeError {
    /// The message for this failure.
    pub fn to_string(&self) -> (r: String)
        ensures
            r@ == self@.message(),
    {
        match self {
            UpgradeError::InvalidVersion { text } => {
                let mut m = String::from_str("invalid semantic version: `");
                m.append(text.as_str());
                m.append("`");
                m
            },
            UpgradeError::AssetNotFound { expected, available } => {
                let mut m = String::from_str("Release asset `");
                m.append(expected.as_str());
                m.append("` was not found. Available assets: ");
                if available.len() == 0 {
                    m.append("<no assets>");
                } else {
                    let list = crate::error::join_with_commas(available);
                    m.append(list.as_str());
                }
                m
            },
            UpgradeError::UnsupportedArchive { name } => {
                let mut m = String::from_str("Unsupported release archive format: ");
                m.append(name.as_str());
                m
            },
        }
    }
}

/// `text` trimmed, without one leading `v`.
pub open spec fn version_text(text: Seq<char>) -> Seq<char> {
    let t = trim(text);
    if t.len() > 0 && t[0] == 'v' {
        t.drop_first()
    } else {
        t
    }
}

/// Parses a release version, allowing a leading `v` (`v1.2.3`).
pub fn parse_version(input: &str) -> (r: Result<semver::Version, UpgradeError>)
    ensures
        r is Ok <==> semver_accepts(version_text(input@)),
        r matches Err(e) ==> e@ == (UpgradeFailure::InvalidVersion { text: trim(input@) }),
{
    let trimmed = trim_str(input);
    let n = trimmed.unicode_len();
    let normalized = if n > 0 && trimmed.get_char(0) == 'v' {
        trimmed.substring_char(1, n)
    } else {
        trimmed
    };
    proof {
        if n > 0 && trimmed@[0] == 'v' {
            assert(normalized@ =~= trimmed@.drop_first());
        }
    }
    match semver::Version::parse(normalized) {
        Ok(v) => Ok(v),
        Err(_) => Err(UpgradeError::InvalidVersion { text: String::from_str(trimmed) }),
    }
}

/// The repository to upgrade from: the override when it is not blank,
/// trimmed; else the default one.
pub fn upgrade_repository(override_value: Option<&str>) -> (r: String)
    ensures
        match override_value {
            Some(v) => if trim(v@).len() > 0 {
                r@ == trim(v@)
            } else {
                r@ == DEFAULT_REPOSITORY@
            },
            None => r@ == DEFAULT_REPOSITORY@,
        },
{
    if let Some(v) = override_value {
        let t = trim_str(v);
        if t.unicode_len() > 0 {
            return String::from_str(t);
        }
    }
    String::from_str(DEFAULT_REPOSITORY)
}

/// The address of the latest-release document of `repository`.
pub fn github_api_url(repository: &str) -> (r: String)
    ensures
        r@ == "https://api.github.com/repos/"@ + repository@ + "/releases/latest"@,
{
    let mut url = String::from_str("https://api.github.com/repos/");
    url.append(repository);
    url.append("/releases/latest");
    url
}

pub open spec fn asset_name_spec(platform: Platform) -> Seq<char> {
    match platform {
        Platform::Windows => "qbit-windows-setup.zip"@,
        Platform::MacOs => "qbit-macos-setup.tar.gz"@,
        _ => "qbit-linux-setup.tar.gz"@,
    }
}

/// The release asset built for `platform`.
pub fn platform_asset_name(platform: Platform) -> (r: &'static str)
    ensures
        r@ == asset_name_spec(platform),
{
    match platform {
        Platform::Windows => "qbit-windows-setup.zip",
        Platform::MacOs => "qbit-macos-setup.tar.gz",
        _ => "qbit-linux-setup.tar.gz",
    }
}

/// Index of the first asset named `name`.
pub open spec fn asset_index(assets: Seq<GithubAsset>, name: Seq<char>) -> Option<int>
    decreases assets.len(),
{
    if assets.len() == 0 {
        None
    } else if assets[0].name@ == name {
        Some(0)
    } else {
        match asset_index(assets.drop_first(), name) {
            Some(i) => Some(i + 1),
            None => None,
        }
    }
}

proof fn lemma_asset_index(assets: Seq<GithubAsset>, name: Seq<char>)
    ensures
        match asset_index(assets, name) {
            Some(i) => 0 <= i < assets.len() && assets[i].name@ == name && forall|j: int|
                0 <= j < i ==> (#[trigger] assets[j]).name@ != name,
            None => forall|j: int| 0 <= j < assets.len() ==> (#[trigger] assets[j]).name@ != name,
        },
    decreases assets.len(),
{
    if assets.len() > 0 && assets[0].name@ != name {
        lemma_asset_index(assets.drop_first(), name);
        assert forall|j: int| 1 <= j < assets.len() implies assets[j] == assets.drop_first()[j
            - 1] by {}
    }
}

/// The first asset of `release` named `expected_name`; when there is none,
/// an error that lists the names there are.
pub fn find_release_asset<'a>(release: &'a GithubRelease, expected_name: &str) -> (r: Result<
    &'a GithubAsset,
    UpgradeError,
>)
    ensures
        match asset_index(release.assets@, expected_name@) {
            Some(i) => r matches Ok(a) && *a == release.assets@[i],
            None => r matches Err(e) && e@ == (UpgradeFailure::AssetNotFound {
                expected: expected_name@,
                available: release.assets@.map_values(|a: GithubAsset| a.name@),
            }),
        },
{
    proof {
        lemma_asset_index(release.assets@, expected_name@);
    }
    let n = release.assets.len();
    let mut names: Vec<String> = Vec::new();
    let mut i: usize = 0;
    while i < n
        invariant
            n == release.assets@.len(),
            i <= n,
            forall|j: int| 0 <= j < i ==> (#[trigger] release.assets@[j]).name@ != expected_name@,
            names@.map_values(|s: String| s@) == release.assets@.subrange(0, i as int).map_values(
                |a: GithubAsset| a.name@,
            ),
        decreases n - i,
    {
        let asset = &release.assets[i];
        if str_eq(asset.name.as_str(), expected_name) {
            proof {
                lemma_asset_index(release.assets@, expected_name@);
            }
            return Ok(asset);
        }
        let ghost before = names@;
        let label = asset.name.clone();
        names.push(label);
        proof {
            assert(names@ == before.push(label));
            assert(names@.map_values(|s: String| s@) =~= before.map_values(|s: String| s@).push(
                label@,
            ));
            assert(release.assets@.subrange(0, i + 1) =~= release.assets@.subrange(
                0,
                i as int,
            ).push(release.assets@[i as int]));
            assert(release.assets@.subrange(0, i + 1).map_values(|a: GithubAsset| a.name@)
                =~= release.assets@.subrange(0, i as int).map_values(|a: GithubAsset| a.name@).push(
                label@,
            ));
        }
        i = i + 1;
    }
    proof {
        lemma_asset_index(release.assets@, expected_name@);
        assert(release.assets@.subrange(0, n as int) =~= release.assets@);
    }
    Err(UpgradeError::AssetNotFound { expected: String::from_str(expected_name), available: names })
}

pub open spec fn ends_with(s: Seq<char>, suffix: Seq<char>) -> bool {
    s.len() >= suffix.len() && s.subrange(s.len() - suffix.len(), s.len() as int) == suffix
}

fn has_suffix(s: &str, suffix: &str) -> (r: bool)
    ensures
        r == ends_with(s@, suffix@),
{
    let n = s.unicode_len();
    let k = suffix.unicode_len();
    if n < k {
        return false;
    }
    str_eq(s.substring_char(n - k, n), suffix)
}

/// How the archive named `file_name` is packed, by its extension.
pub fn archive_format(file_name: &str) -> (r: Result<ArchiveFormat, UpgradeError>)
    ensures
        ends_with(file_name@, ".zip"@) ==> r == Ok::<ArchiveFormat, UpgradeError>(
            ArchiveFormat::Zip,
        ),
        !ends_with(file_name@, ".zip"@) && ends_with(file_name@, ".tar.gz"@) ==> r == Ok::<
            ArchiveFormat,
            UpgradeError,
        >(ArchiveFormat::TarGz),
        !ends_with(file_name@, ".zip"@) && !ends_with(file_name@, ".tar.gz"@) ==> (r matches Err(
            e,
        ) && e@ == (UpgradeFailure::UnsupportedArchive { name: file_name@ })),
{
    if has_suffix(file_name, ".zip") {
        return Ok(ArchiveFormat::Zip);
    }
    if has_suffix(file_name, ".tar.gz") {
        return Ok(ArchiveFormat::TarGz);
    }
    Err(UpgradeError::UnsupportedArchive { name: String::from_str(file_name) })
}

pub open spec fn installer_script_spec(platform: Platform) -> Option<Seq<char>> {
    match platform {
        Platform::Windows => Some("install.ps1"@),
        Platform::MacOs => Some("install_macos.sh"@),
        Platform::Linux => Some("install.sh"@),
        Platform::Other => None,
    }
}

/// The installer script that a release ships for `platform`; none where
/// upgrades are not supported.
pub fn installer_script(platform: Platform) -> (r: Option<&'static str>)
    ensures
        opt_str_view(r) == installer_script_spec(platform),
{
    match platform {
        Platform::Windows => Some("install.ps1"),
        Platform::MacOs => Some("install_macos.sh"),
        Platform::Linux => Some("install.sh"),
        Platform::Other => None,
    }
}

pub open spec fn opt_str_view(o: Option<&str>) -> Option<Seq<char>> {
    match o {
        Some(s) => Some(s@),
        None => None,
    }
}

} // verus!
