//! Errors of target parsing, command building, manager selection and
//! execution.
use vstd::prelude::*;
use vstd::string::*;

verus! {

/// The broad classes of failure that callers act on.
#[derive(Debug, Clone, Copy, PartialEq, Eq, Structural)]
pub enum ErrorKind {
    InvalidInput,
    UnsupportedOperation,
    UnknownManager,
    ManagerUnavailable,
    NoManagerFound,
    SpawnFailed,
    InstallerFailed,
}

/// What an `InstallError` holds, with texts as character sequences.
pub ghost enum Failure {
    InvalidTargetSpec { spec: Seq<char> },
    EmptyIdentifier { manager: Seq<char> },
    EmptyVersion { manager: Seq<char> },
    VersionHasWhitespace { manager: Seq<char>, version: Seq<char> },
    BrewVersionConflict { identifier: Seq<char>, existing: Seq<char>, requested: Seq<char> },
    BrewNotDerivable { identifier: Seq<char>, version: Seq<char> },
    VersionPinUnsupported { manager: Seq<char> },
    EmptyOverride,
    UnknownManager { name: Seq<char> },
    ManagerUnavailable { name: Seq<char>, executable: Seq<char> },
    NoManagerFound { checked: Seq<Seq<char>> },
    SpawnFailed { command: Seq<char> },
    InstallerFailed { code: i32 },
}

impl Failure {
    pub open spec fn kind(self) -> ErrorKind {
        match self {
            Failure::InvalidTargetSpec { .. } => ErrorKind::InvalidInput,
            Failure::EmptyIdentifier { .. } => ErrorKind::InvalidInput,
            Failure::EmptyVersion { .. } => ErrorKind::InvalidInput,
            Failure::VersionHasWhitespace { .. } => ErrorKind::InvalidInput,
            Failure::BrewVersionConflict { .. } => ErrorKind::InvalidInput,
            Failure::BrewNotDerivable { .. } => ErrorKind::InvalidInput,
            Failure::VersionPinUnsupported { .. } => ErrorKind::UnsupportedOperation,
            Failure::EmptyOverride => ErrorKind::UnknownManager,
            Failure::UnknownManager { .. } => ErrorKind::UnknownManager,
            Failure::ManagerUnavailable { .. } => ErrorKind::ManagerUnavailable,
            Failure::NoManagerFound { .. } => ErrorKind::NoManagerFound,
            Failure::SpawnFailed { .. } => ErrorKind::SpawnFailed,
            Failure::InstallerFailed { .. } => ErrorKind::InstallerFailed,
        }
    }
}

/// The decimal digits of `n`.
pub open spec fn decimal(n: nat) -> Seq<char>
    decreases n,
{
    if n < 10 {
        seq![digit_char(n)]
    } else {
        decimal(n / 10) + seq![digit_char(n % 10)]
    }
}

pub open spec fn digit_char(d: nat) -> char {
    if d == 0 { '0' } else if d == 1 { '1' } else if d == 2 { '2' } else if d == 3 { '3' }
    else if d == 4 { '4' } else if d == 5 { '5' } else if d == 6 { '6' } else if d == 7 { '7' }
    else if d == 8 { '8' } else { '9' }
}

/// `n` in decimal, with a leading `-` when negative.
pub open spec fn signed_decimal(n: int) -> Seq<char> {
    if n < 0 {
        seq!['-'] + decimal((-n) as nat)
    } else {
        decimal(n as nat)
    }
}

/// `items` joined by `, `.
pub open spec fn comma_joined(items: Seq<Seq<char>>) -> Seq<char>
    decreases items.len(),
{
    if items.len() == 0 {
        Seq::empty()
    } else if items.len() == 1 {
        items[0]
    } else {
        comma_joined(items.drop_last()) + ", "@ + items.last()
    }
}

impl Failure {
    /// The message shown for this failure, with the offending value and a
    /// hint.
    pub open spec fn message(self) -> Seq<char> {
        match self {
            Failure::InvalidTargetSpec { spec } => "Invalid target `"@ + spec
                + "`: expected `name` or `name:version` with non-empty parts."@,
            Failure::EmptyIdentifier { manager } => "Resolved identifier is empty for `"@ + manager
                + "`. Define a valid identifier in qbit.yml under install.<target>."@,
            Failure::EmptyVersion { manager } => "Version is empty for `"@ + manager
                + "`. Use `qbit install <target>` or provide a non-empty version."@,
            Failure::VersionHasWhitespace { manager, version } => "Version `"@ + version
                + "` contains whitespace, which is not valid for `"@ + manager
                + "`. Use a compact version like `3.12`."@,
            Failure::BrewVersionConflict { identifier, existing, requested } =>
                "Homebrew identifier `"@ + identifier + "` already includes version `"@ + existing
                + "`. Remove inline version `:"@ + requested
                + "` or update your `identifiers.brew` value."@,
            Failure::BrewNotDerivable { identifier, version } =>
                "Cannot derive a versioned Homebrew formula from `"@ + identifier
                + "`. Set an explicit `identifiers.brew` value like `<formula>@"@ + version + "`."@,
            Failure::VersionPinUnsupported { manager } => "`"@ + manager
                + "` cannot pin a version in a single install command. Remove `:<version>` or install the required version manually."@,
            Failure::EmptyOverride =>
                "QBIT_PACKAGE_MANAGER is set but empty. Set it to one of: apt-get, dnf, pacman, zypper, brew, winget, choco, scoop; or unset it."@,
            Failure::UnknownManager { name } => "Unknown package manager `"@ + name
                + "` in QBIT_PACKAGE_MANAGER. Set the override to one of: apt-get, dnf, pacman, zypper, brew, winget, choco, scoop."@,
            Failure::ManagerUnavailable { name, executable } => "QBIT_PACKAGE_MANAGER is `"@ + name
                + "`, but executable `"@ + executable
                + "` is not available in PATH. Install it or unset QBIT_PACKAGE_MANAGER."@,
            Failure::NoManagerFound { checked } =>
                "No supported package manager detected in PATH. Checked: "@ + comma_joined(checked)
                + ". Install one of them or set QBIT_PACKAGE_MANAGER."@,
            Failure::SpawnFailed { command } => "Could not start the installer: "@ + command,
            Failure::InstallerFailed { code } => "Installer failed with exit code "@
                + signed_decimal(code as int),
        }
    }
}

/// A failure, with the offending values.
#[derive(Debug, Clone)]
pub enum InstallError {
    InvalidTargetSpec { spec: String },
    EmptyIdentifier { manager: String },
    EmptyVersion { manager: String },
    VersionHasWhitespace { manager: String, version: String },
    BrewVersionConflict { identifier: String, existing: String, requested: String },
    BrewNotDerivable { identifier: String, version: String },
    VersionPinUnsupported { manager: String },
    EmptyOverride,
    UnknownManager { name: String },
    ManagerUnavailable { name: String, executable: String },
    NoManagerFound { checked: Vec<String> },
    SpawnFailed { command: String },
    InstallerFailed { code: i32 },
}

impl View for InstallError {
    type V = Failure;

    open spec fn view(&self) -> Failure {
        match self {
            InstallError::InvalidTargetSpec { spec } => Failure::InvalidTargetSpec { spec: spec@ },
            InstallError::EmptyIdentifier { manager } => Failure::EmptyIdentifier {
                manager: manager@,
            },
            InstallError::EmptyVersion { manager } => Failure::EmptyVersion { manager: manager@ },
            InstallError::VersionHasWhitespace { manager, version } =>
                Failure::VersionHasWhitespace { manager: manager@, version: version@ },
            InstallError::BrewVersionConflict { identifier, existing, requested } =>
                Failure::BrewVersionConflict {
                identifier: identifier@,
                existing: existing@,
                requested: requested@,
            },
            InstallError::BrewNotDerivable { identifier, version } => Failure::BrewNotDerivable {
                identifier: identifier@,
                version: version@,
            },
            InstallError::VersionPinUnsupported { manager } => Failure::VersionPinUnsupported {
                manager: manager@,
            },
            InstallError::EmptyOverride => Failure::EmptyOverride,
            InstallError::UnknownManager { name } => Failure::UnknownManager { name: name@ },
            InstallError::ManagerUnavailable { name, executable } => Failure::ManagerUnavailable {
                name: name@,
                executable: executable@,
            },
            InstallError::NoManagerFound { checked } => Failure::NoManagerFound {
                checked: checked@.map_values(|s: String| s@),
            },
            InstallError::SpawnFailed { command } => Failure::SpawnFailed { command: command@ },
            InstallError::InstallerFailed { code } => Failure::InstallerFailed { code: *code },
        }
    }
}

impl InstallError {
    /// The class of this failure.
    pub fn kind(&self) -> (r: ErrorKind)
        ensures
            r == self@.kind(),
    {
        match self {
            InstallError::InvalidTargetSpec { .. } => ErrorKind::InvalidInput,
            InstallError::EmptyIdentifier { .. } => ErrorKind::InvalidInput,
            InstallError::EmptyVersion { .. } => ErrorKind::InvalidInput,
            InstallError::VersionHasWhitespace { .. } => ErrorKind::InvalidInput,
            InstallError::BrewVersionConflict { .. } => ErrorKind::InvalidInput,
            InstallError::BrewNotDerivable { .. } => ErrorKind::InvalidInput,
            InstallError::VersionPinUnsupported { .. } => ErrorKind::UnsupportedOperation,
            InstallError::EmptyOverride => ErrorKind::UnknownManager,
            InstallError::UnknownManager { .. } => ErrorKind::UnknownManager,
            InstallError::ManagerUnavailable { .. } => ErrorKind::ManagerUnavailable,
            InstallError::NoManagerFound { .. } => ErrorKind::NoManagerFound,
            InstallError::SpawnFailed { .. } => ErrorKind::SpawnFailed,
            InstallError::InstallerFailed { .. } => ErrorKind::InstallerFailed,
        }
    }

    /// The message for this failure: see `Failure::message`.
    pub fn to_string(&self) -> (r: String)
        ensures
            r@ == self@.message(),
    {
        match self {
            InstallError::InvalidTargetSpec { spec } => {
                let mut m = String::from_str("Invalid target `");
                m.append(spec.as_str());
                m.append("`: expected `name` or `name:version` with non-empty parts.");
                m
            },
            InstallError::EmptyIdentifier { manager } => {
                let mut m = String::from_str("Resolved identifier is empty for `");
                m.append(manager.as_str());
                m.append("`. Define a valid identifier in qbit.yml under install.<target>.");
                m
            },
            InstallError::EmptyVersion { manager } => {
                let mut m = String::from_str("Version is empty for `");
                m.append(manager.as_str());
                m.append("`. Use `qbit install <target>` or provide a non-empty version.");
                m
            },
            InstallError::VersionHasWhitespace { manager, version } => {
                let mut m = String::from_str("Version `");
                m.append(version.as_str());
                m.append("` contains whitespace, which is not valid for `");
                m.append(manager.as_str());
                m.append("`. Use a compact version like `3.12`.");
                m
            },
            InstallError::BrewVersionConflict { identifier, existing, requested } => {
                let mut m = String::from_str("Homebrew identifier `");
                m.append(identifier.as_str());
                m.append("` already includes version `");
                m.append(existing.as_str());
                m.append("`. Remove inline version `:");
                m.append(requested.as_str());
                m.append("` or update your `identifiers.brew` value.");
                m
            },
            InstallError::BrewNotDerivable { identifier, version } => {
                let mut m = String::from_str("Cannot derive a versioned Homebrew formula from `");
                m.append(identifier.as_str());
                m.append("`. Set an explicit `identifiers.brew` value like `<formula>@");
                m.append(version.as_str());
                m.append("`.");
                m
            },
            InstallError::VersionPinUnsupported { manager } => {
                let mut m = String::from_str("`");
                m.append(manager.as_str());
                m.append(
                    "` cannot pin a version in a single install command. Remove `:<version>` or install the required version manually.",
                );
                m
            },
            InstallError::EmptyOverride => String::from_str(
                "QBIT_PACKAGE_MANAGER is set but empty. Set it to one of: apt-get, dnf, pacman, zypper, brew, winget, choco, scoop; or unset it.",
            ),
            InstallError::UnknownManager { name } => {
                let mut m = String::from_str("Unknown package manager `");
                m.append(name.as_str());
                m.append(
                    "` in QBIT_PACKAGE_MANAGER. Set the override to one of: apt-get, dnf, pacman, zypper, brew, winget, choco, scoop.",
                );
                m
            },
            InstallError::ManagerUnavailable { name, executable } => {
                let mut m = String::from_str("QBIT_PACKAGE_MANAGER is `");
                m.append(name.as_str());
                m.append("`, but executable `");
                m.append(executable.as_str());
                m.append("` is not available in PATH. Install it or unset QBIT_PACKAGE_MANAGER.");
                m
            },
            InstallError::NoManagerFound { checked } => {
                let mut m = String::from_str(
                    "No supported package manager detected in PATH. Checked: ",
                );
                let list = join_with_commas(checked);
                m.append(list.as_str());
                m.append(". Install one of them or set QBIT_PACKAGE_MANAGER.");
                m
            },
            InstallError::SpawnFailed { command } => {
                let mut m = String::from_str("Could not start the installer: ");
                m.append(command.as_str());
                m
            },
            InstallError::InstallerFailed { code } => {
                let mut m = String::from_str("Installer failed with exit code ");
                let digits = decimal_string(*code);
                m.append(digits.as_str());
                m
            },
        }
    }
}

/// `items` joined by `, `.
pub fn join_with_commas(items: &Vec<String>) -> (r: String)
    ensures
        r@ == comma_joined(items@.map_values(|s: String| s@)),
{
    let ghost all = items@.map_values(|s: String| s@);
    let mut out = String::new();
    let mut i: usize = 0;
    proof {
        assert(all.subrange(0, 0) =~= Seq::<Seq<char>>::empty());
    }
    while i < items.len()
        invariant
            all == items@.map_values(|s: String| s@),
            i <= items@.len(),
            out@ == comma_joined(all.subrange(0, i as int)),
        decreases items@.len() - i,
    {
        let ghost before = out@;
        if i > 0 {
            out.append(", ");
        }
        out.append(items[i].as_str());
        proof {
            let prefix = all.subrange(0, i + 1);
            assert(prefix.drop_last() =~= all.subrange(0, i as int));
            assert(prefix.last() == items@[i as int]@);
            if i == 0 {
                assert(out@ =~= prefix[0]);
            }
        }
        i = i + 1;
    }
    proof {
        assert(all.subrange(0, items@.len() as int) =~= all);
    }
    out
}

fn digit(d: u32) -> (r: &'static str)
    requires
        d < 10,
    ensures
        r@ == seq![digit_char(d as nat)],
{
    proof {
        reveal_strlit("0");
        reveal_strlit("1");
        reveal_strlit("2");
        reveal_strlit("3");
        reveal_strlit("4");
        reveal_strlit("5");
        reveal_strlit("6");
        reveal_strlit("7");
        reveal_strlit("8");
        reveal_strlit("9");
    }
    if d == 0 {
        "0"
    } else if d == 1 {
        "1"
    } else if d == 2 {
        "2"
    } else if d == 3 {
        "3"
    } else if d == 4 {
        "4"
    } else if d == 5 {
        "5"
    } else if d == 6 {
        "6"
    } else if d == 7 {
        "7"
    } else if d == 8 {
        "8"
    } else {
        "9"
    }
}

fn unsigned_decimal(n: u32) -> (r: String)
    ensures
        r@ == decimal(n as nat),
    decreases n,
{
    if n < 10 {
        String::from_str(digit(n))
    } else {
        let mut head = unsigned_decimal(n / 10);
        head.append(digit(n % 10));
        head
    }
}

/// `n` in decimal, as `i32`'s `Display` writes it.
pub fn decimal_string(n: i32) -> (r: String)
    ensures
        r@ == signed_decimal(n as int),
{
    if n < 0 {
        let magnitude: u32 = if n == i32::MIN {
            2147483648u32
        } else {
            (-n) as u32
        };
        let mut out = String::from_str("-");
        let digits = unsigned_decimal(magnitude);
        out.append(digits.as_str());
        proof {
            reveal_strlit("-");
        }
        out
    } else {
        unsigned_decimal(n as u32)
    }
}

} // verus!
