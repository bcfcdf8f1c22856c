//! Choosing one backend: an explicit override, else the first available
//! candidate of the host platform.
use vstd::prelude::*;
use vstd::string::*;

use crate::error::{Failure, InstallError};
use crate::manager::{opt_view, PackageManager};
use crate::text::{ascii_lower, eq_ignore_ascii_case, trim, trim_str};

verus! {

/// The host operating system, as far as manager selection cares.
#[derive(Debug, Clone, Copy, PartialEq, Eq, Structural)]
pub enum Platform {
    Linux,
    MacOs,
    Windows,
    Other,
}

pub open spec fn names_alias(s: Seq<char>, alias: Seq<char>) -> bool {
    ascii_lower(s) == ascii_lower(alias)
}

/// The backend that a name or alias stands for, ignoring ASCII case.
pub open spec fn manager_for_alias(s: Seq<char>) -> Option<PackageManager> {
    if names_alias(s, "apt"@) || names_alias(s, "apt-get"@) {
        Some(PackageManager::AptGet)
    } else if names_alias(s, "dnf"@) {
        Some(PackageManager::Dnf)
    } else if names_alias(s, "pacman"@) {
        Some(PackageManager::Pacman)
    } else if names_alias(s, "zypper"@) {
        Some(PackageManager::Zypper)
    } else if names_alias(s, "brew"@) || names_alias(s, "homebrew"@) {
        Some(PackageManager::Brew)
    } else if names_alias(s, "winget"@) {
        Some(PackageManager::Winget)
    } else if names_alias(s, "choco"@) || names_alias(s, "chocolatey"@) {
        Some(PackageManager::Chocolatey)
    } else if names_alias(s, "scoop"@) {
        Some(PackageManager::Scoop)
    } else {
        None
    }
}

/// The backends probed on `platform`, in order.
pub open spec fn candidates_spec(platform: Platform) -> Seq<PackageManager> {
    match platform {
        Platform::Linux => seq![
            PackageManager::AptGet,
            PackageManager::Dnf,
            PackageManager::Pacman,
            PackageManager::Zypper,
        ],
        Platform::MacOs => seq![PackageManager::Brew],
        Platform::Windows => seq![
            PackageManager::Winget,
            PackageManager::Chocolatey,
            PackageManager::Scoop,
        ],
        Platform::Other => seq![
            PackageManager::AptGet,
            PackageManager::Dnf,
            PackageManager::Pacman,
            PackageManager::Zypper,
            PackageManager::Brew,
            PackageManager::Winget,
            PackageManager::Chocolatey,
            PackageManager::Scoop,
        ],
    }
}

/// The first of `candidates` that is among `available`.
pub open spec fn first_available(
    candidates: Seq<PackageManager>,
    available: Seq<PackageManager>,
) -> Option<PackageManager>
    decreases candidates.len(),
{
    if candidates.len() == 0 {
        None
    } else if available.contains(candidates[0]) {
        Some(candidates[0])
    } else {
        first_available(candidates.drop_first(), available)
    }
}

pub open spec fn names_of(managers: Seq<PackageManager>) -> Seq<Seq<char>> {
    managers.map_values(|m: PackageManager| m.spec_name())
}

/// The selection: the override when one is set (it must name a backend that
/// is available), else the first available candidate of the platform.
pub open spec fn selection_spec(
    override_name: Option<Seq<char>>,
    platform: Platform,
    available: Seq<PackageManager>,
) -> Result<PackageManager, Failure> {
    match override_name {
        Some(raw) => {
            let t = trim(raw);
            if t.len() == 0 {
                Err(Failure::EmptyOverride)
            } else {
                match manager_for_alias(t) {
                    None => Err(Failure::UnknownManager { name: t }),
                    Some(m) => if available.contains(m) {
                        Ok(m)
                    } else {
                        Err(Failure::ManagerUnavailable { name: t, executable: m.spec_executable() })
                    },
                }
            }
        },
        None => match first_available(candidates_spec(platform), available) {
            Some(m) => Ok(m),
            None => Err(Failure::NoManagerFound { checked: names_of(candidates_spec(platform)) }),
        },
    }
}

/// The backend named by `name` (trimmed, ASCII case ignored), with the
/// aliases `apt`, `homebrew` and `chocolatey`.
pub fn package_manager_from_name(name: &str) -> (r: Option<PackageManager>)
    ensures
        r == manager_for_alias(trim(name@)),
{
    let t = trim_str(name);
    if eq_ignore_ascii_case(t, "apt") || eq_ignore_ascii_case(t, "apt-get") {
        Some(PackageManager::AptGet)
    } else if eq_ignore_ascii_case(t, "dnf") {
        Some(PackageManager::Dnf)
    } else if eq_ignore_ascii_case(t, "pacman") {
        Some(PackageManager::Pacman)
    } else if eq_ignore_ascii_case(t, "zypper") {
        Some(PackageManager::Zypper)
    } else if eq_ignore_ascii_case(t, "brew") || eq_ignore_ascii_case(t, "homebrew") {
        Some(PackageManager::Brew)
    } else if eq_ignore_ascii_case(t, "winget") {
        Some(PackageManager::Winget)
    } else if eq_ignore_ascii_case(t, "choco") || eq_ignore_ascii_case(t, "chocolatey") {
        Some(PackageManager::Chocolatey)
    } else if eq_ignore_ascii_case(t, "scoop") {
        Some(PackageManager::Scoop)
    } else {
        None
    }
}

/// The backends to probe on `platform`, in priority order.
pub fn detection_candidates(platform: Platform) -> (r: Vec<PackageManager>)
    ensures
        r@ == candidates_spec(platform),
{
    let r = match platform {
        Platform::Linux => vec![
            PackageManager::AptGet,
            PackageManager::Dnf,
            PackageManager::Pacman,
            PackageManager::Zypper,
        ],
        Platform::MacOs => vec![PackageManager::Brew],
        Platform::Windows => vec![
            PackageManager::Winget,
            PackageManager::Chocolatey,
            PackageManager::Scoop,
        ],
        Platform::Other => vec![
            PackageManager::AptGet,
            PackageManager::Dnf,
            PackageManager::Pacman,
            PackageManager::Zypper,
            PackageManager::Brew,
            PackageManager::Winget,
            PackageManager::Chocolatey,
            PackageManager::Scoop,
        ],
    };
    proof {
        assert(r@ =~= candidates_spec(platform));
    }
    r
}

fn is_listed(available: &Vec<PackageManager>, m: PackageManager) -> (r: bool)
    ensures
        r == available@.contains(m),
{
    let mut i: usize = 0;
    while i < available.len()
        invariant
            i <= available@.len(),
            forall|j: int| 0 <= j < i ==> available@[j] != m,
        decreases available@.len() - i,
    {
        if available[i] == m {
            return true;
        }
        i = i + 1;
    }
    false
}

/// Selects the backend. `override_name` is the configured override, if any;
/// `available` lists the backends whose executables answered a probe.
pub fn detect_package_manager(
    override_name: Option<&str>,
    platform: Platform,
    available: &Vec<PackageManager>,
) -> (r: Result<PackageManager, InstallError>)
    ensures
        match selection_spec(opt_view(override_name), platform, available@) {
            Ok(m) => r == Ok::<PackageManager, InstallError>(m),
            Err(f) => r matches Err(e) && e@ == f,
        },
{
    if let Some(raw) = override_name {
        let t = trim_str(raw);
        if t.unicode_len() == 0 {
            return Err(InstallError::EmptyOverride);
        }
        proof {
            assert(trim(t@) == t@) by {
                crate::text::lemma_trim_idempotent(raw@);
            }
        }
        let m = match package_manager_from_name(t) {
            None => return Err(InstallError::UnknownManager { name: String::from_str(t) }),
            Some(m) => m,
        };
        if !is_listed(available, m) {
            return Err(
                InstallError::ManagerUnavailable {
                    name: String::from_str(t),
                    executable: String::from_str(m.executable()),
                },
            );
        }
        return Ok(m);
    }
    let candidates = detection_candidates(platform);
    let mut checked: Vec<String> = Vec::new();
    let mut i: usize = 0;
    proof {
        assert(candidates@.subrange(0, 0) =~= Seq::<PackageManager>::empty());
        assert(candidates@.subrange(0, candidates@.len() as int) =~= candidates@);
    }
    while i < candidates.len()
        invariant
            override_name is None,
            candidates@ == candidates_spec(platform),
            i <= candidates@.len(),
            checked@.map_values(|s: String| s@) == names_of(candidates@.subrange(0, i as int)),
            first_available(candidates@, available@) == first_available(
                candidates@.subrange(i as int, candidates@.len() as int),
                available@,
            ),
        decreases candidates@.len() - i,
    {
        let m = candidates[i];
        let ghost rest = candidates@.subrange(i as int, candidates@.len() as int);
        let ghost before = checked@;
        let label = String::from_str(m.name());
        checked.push(label);
        proof {
            assert(checked@ == before.push(label));
            assert(checked@.map_values(|s: String| s@) =~= before.map_values(|s: String| s@).push(
                m.spec_name(),
            ));
            assert(names_of(candidates@.subrange(0, i + 1)) =~= names_of(
                candidates@.subrange(0, i as int),
            ).push(m.spec_name()));
            assert(rest[0] == m);
            assert(rest.drop_first() =~= candidates@.subrange(i + 1, candidates@.len() as int));
        }
        if is_listed(available, m) {
            assert(first_available(rest, available@) == Some(m));
            return Ok(m);
        }
        i = i + 1;
    }
    proof {
        assert(candidates@.subrange(i as int, candidates@.len() as int).len() == 0);
        assert(candidates@.subrange(0, i as int) =~= candidates@);
    }
    Err(InstallError::NoManagerFound { checked })
}

} // verus!
