//! The eight package-manager backends and their command grammars.
use vstd::prelude::*;
use vstd::string::*;

use crate::command::{views_of, CommandView, InstallCommand};
use crate::error::{Failure, InstallError};
use crate::session::{Executor, Session};
use crate::text::{
    contains_whitespace, has_white_space, last_index_of, last_position, trim, trim_str,
};

verus! {

/// A supported operating-system package manager.
#[derive(Debug, Clone, Copy, PartialEq, Eq, Structural)]
pub enum PackageManager {
    AptGet,
    Dnf,
    Pacman,
    Zypper,
    Brew,
    Winget,
    Chocolatey,
    Scoop,
}

pub open spec fn opt_view(o: Option<&str>) -> Option<Seq<char>> {
    match o {
        Some(s) => Some(s@),
        None => None,
    }
}

/// The version a backend receives: absent, or trimmed, non-empty and free of
/// white space.
pub open spec fn checked_version(manager: Seq<char>, version: Option<Seq<char>>) -> Result<
    Option<Seq<char>>,
    Failure,
> {
    match version {
        None => Ok(None),
        Some(raw) => {
            let t = trim(raw);
            if t.len() == 0 {
                Err(Failure::EmptyVersion { manager })
            } else if has_white_space(t) {
                Err(Failure::VersionHasWhitespace { manager, version: t })
            } else {
                Ok(Some(t))
            }
        },
    }
}

/// The Homebrew formula for `id` at `version`: `id@version`, unless `id`
/// already names a version or cannot take one.
pub open spec fn brew_formula(id: Seq<char>, version: Option<Seq<char>>) -> Result<
    Seq<char>,
    Failure,
> {
    match version {
        None => Ok(id),
        Some(v) => match last_index_of(id, '@') {
            Some(k) => {
                let existing = id.subrange(k + 1, id.len() as int);
                if existing == v {
                    Ok(id)
                } else {
                    Err(Failure::BrewVersionConflict { identifier: id, existing, requested: v })
                }
            },
            None => {
                if (id.len() > 0 && id.last() == '/') || has_white_space(id) {
                    Err(Failure::BrewNotDerivable { identifier: id, version: v })
                } else {
                    Ok(id + "@"@ + v)
                }
            },
        },
    }
}

/// The package argument `id`, or `id` joined to `v` by `sep`.
pub open spec fn joined_spec(id: Seq<char>, sep: Seq<char>, v: Option<Seq<char>>) -> Seq<char> {
    match v {
        Some(v) => id + sep + v,
        None => id,
    }
}

/// `args` followed by `--version v` when a version is given.
pub open spec fn with_version_option(args: Seq<Seq<char>>, v: Option<Seq<char>>) -> Seq<
    Seq<char>,
> {
    match v {
        Some(v) => args + seq!["--version"@, v],
        None => args,
    }
}

/// `args` with `flag` right after the first `sub`, or at the end when there
/// is no `sub`; unchanged when `flag` is already there.
pub open spec fn insert_after(args: Seq<Seq<char>>, sub: Seq<char>, flag: Seq<char>) -> Seq<
    Seq<char>,
> {
    if args.contains(flag) {
        args
    } else {
        match crate::text::first_index_of(args, sub) {
            Some(i) => args.insert(i + 1, flag),
            None => args.push(flag),
        }
    }
}

/// `program args`, or `sudo program args` when `elevate` holds.
pub open spec fn elevated(program: Seq<char>, args: Seq<Seq<char>>, elevate: bool) -> CommandView {
    if elevate {
        CommandView { program: "sudo"@, args: seq![program] + args }
    } else {
        CommandView { program, args }
    }
}

impl PackageManager {
    pub open spec fn spec_name(self) -> Seq<char> {
        match self {
            PackageManager::AptGet => "apt-get"@,
            PackageManager::Dnf => "dnf"@,
            PackageManager::Pacman => "pacman"@,
            PackageManager::Zypper => "zypper"@,
            PackageManager::Brew => "brew"@,
            PackageManager::Winget => "winget"@,
            PackageManager::Chocolatey => "choco"@,
            PackageManager::Scoop => "scoop"@,
        }
    }

    /// The program that is run; the same word as the name for every backend.
    pub open spec fn spec_executable(self) -> Seq<char> {
        self.spec_name()
    }

    /// The keys under which configuration names this backend's identifiers.
    pub open spec fn spec_config_keys(self) -> Seq<Seq<char>> {
        match self {
            PackageManager::AptGet => seq!["apt-get"@, "apt"@],
            PackageManager::Dnf => seq!["dnf"@],
            PackageManager::Pacman => seq!["pacman"@],
            PackageManager::Zypper => seq!["zypper"@],
            PackageManager::Brew => seq!["brew"@, "homebrew"@],
            PackageManager::Winget => seq!["winget"@],
            PackageManager::Chocolatey => seq!["choco"@, "chocolatey"@],
            PackageManager::Scoop => seq!["scoop"@],
        }
    }

    /// Whether the backend can pin a version in one install command.
    pub open spec fn pins_versions(self) -> bool {
        !(self == PackageManager::Pacman || self == PackageManager::Scoop)
    }

    /// Whether the backend runs under `sudo` when that is available.
    pub open spec fn wants_elevation(self) -> bool {
        self == PackageManager::AptGet || self == PackageManager::Dnf || self
            == PackageManager::Pacman || self == PackageManager::Zypper
    }

    /// The install subcommand token.
    pub open spec fn install_token(self) -> Seq<char> {
        if self == PackageManager::Pacman {
            "-S"@
        } else {
            "install"@
        }
    }

    /// The non-interactive flag, for the backends that have one.
    pub open spec fn yes_flag(self) -> Option<Seq<char>> {
        match self {
            PackageManager::AptGet => Some("-y"@),
            PackageManager::Dnf => Some("-y"@),
            PackageManager::Zypper => Some("-y"@),
            PackageManager::Chocolatey => Some("-y"@),
            PackageManager::Pacman => Some("--noconfirm"@),
            PackageManager::Winget => Some("--silent"@),
            PackageManager::Brew => None,
            PackageManager::Scoop => None,
        }
    }

    /// The arguments after the program, for a validated identifier and
    /// version (for Homebrew, `id` is already the formula).
    pub open spec fn install_args(self, id: Seq<char>, v: Option<Seq<char>>) -> Seq<Seq<char>> {
        match self {
            PackageManager::AptGet => seq!["install"@, joined_spec(id, "="@, v)],
            PackageManager::Zypper => seq!["install"@, joined_spec(id, "="@, v)],
            PackageManager::Dnf => seq!["install"@, joined_spec(id, "-"@, v)],
            PackageManager::Pacman => seq!["-S"@, id],
            PackageManager::Brew => seq!["install"@, id],
            PackageManager::Winget => with_version_option(
                seq![
                    "install"@,
                    "--id"@,
                    id,
                    "--exact"@,
                    "--accept-source-agreements"@,
                    "--accept-package-agreements"@,
                ],
                v,
            ),
            PackageManager::Chocolatey => with_version_option(seq!["install"@, id], v),
            PackageManager::Scoop => seq!["install"@, id],
        }
    }

    /// What `build_install_cmd` yields for `identifier` and `version`, with
    /// `sudo_available` telling whether an elevation helper is at hand on a
    /// host that uses one.
    pub open spec fn install_command_spec(
        self,
        identifier: Seq<char>,
        version: Option<Seq<char>>,
        sudo_available: bool,
    ) -> Result<CommandView, Failure> {
        let name = self.spec_name();
        let id = trim(identifier);
        let elevate = sudo_available && self.wants_elevation();
        if id.len() == 0 {
            Err(Failure::EmptyIdentifier { manager: name })
        } else if !self.pins_versions() {
            if version is Some {
                Err(Failure::VersionPinUnsupported { manager: name })
            } else {
                Ok(elevated(self.spec_executable(), self.install_args(id, None), elevate))
            }
        } else {
            match checked_version(name, version) {
                Err(f) => Err(f),
                Ok(v) => if self == PackageManager::Brew {
                    match brew_formula(id, v) {
                        Err(f) => Err(f),
                        Ok(formula) => Ok(
                            CommandView {
                                program: self.spec_executable(),
                                args: self.install_args(formula, None),
                            },
                        ),
                    }
                } else {
                    Ok(elevated(self.spec_executable(), self.install_args(id, v), elevate))
                },
            }
        }
    }

    /// The command after the non-interactive flag is applied.
    pub open spec fn yes_flag_spec(self, c: CommandView) -> CommandView {
        match self.yes_flag() {
            Some(flag) => CommandView {
                program: c.program,
                args: insert_after(c.args, self.install_token(), flag),
            },
            None => c,
        }
    }

    pub fn name(&self) -> (r: &'static str)
        ensures
            r@ == self.spec_name(),
            r@.len() > 0,
    {
        proof {
            reveal_strlit("apt-get");
            reveal_strlit("dnf");
            reveal_strlit("pacman");
            reveal_strlit("zypper");
            reveal_strlit("brew");
            reveal_strlit("winget");
            reveal_strlit("choco");
            reveal_strlit("scoop");
        }
        match self {
            PackageManager::AptGet => "apt-get",
            PackageManager::Dnf => "dnf",
            PackageManager::Pacman => "pacman",
            PackageManager::Zypper => "zypper",
            PackageManager::Brew => "brew",
            PackageManager::Winget => "winget",
            PackageManager::Chocolatey => "choco",
            PackageManager::Scoop => "scoop",
        }
    }

    /// Whether this backend's executable answers a probe on the host. Not
    /// cached: the host may change between calls.
    pub fn is_available<E: Executor>(&self, session: &mut Session<E>) -> (r: bool)
        ensures
            final(session).probes() == old(session).probes().push((self.spec_executable(), r)),
            final(session).shown() == old(session).shown(),
            final(session).spawns() == old(session).spawns(),
    {
        session.probe(self.executable())
    }

    pub fn executable(&self) -> (r: &'static str)
        ensures
            r@ == self.spec_executable(),
            r@.len() > 0,
    {
        self.name()
    }

    pub fn config_keys(&self) -> (r: Vec<&'static str>)
        ensures
            r@.map_values(|k: &str| k@) == self.spec_config_keys(),
    {
        let r = match self {
            PackageManager::AptGet => vec!["apt-get", "apt"],
            PackageManager::Dnf => vec!["dnf"],
            PackageManager::Pacman => vec!["pacman"],
            PackageManager::Zypper => vec!["zypper"],
            PackageManager::Brew => vec!["brew", "homebrew"],
            PackageManager::Winget => vec!["winget"],
            PackageManager::Chocolatey => vec!["choco", "chocolatey"],
            PackageManager::Scoop => vec!["scoop"],
        };
        proof {
            assert(r@.map_values(|k: &str| k@) =~= self.spec_config_keys());
        }
        r
    }

    /// The install command for `identifier` at `version` (latest when
    /// absent). `sudo_available` says whether an elevation helper was found
    /// on a host that uses one; the system-level Linux managers then run
    /// under it.
    pub fn build_install_cmd(
        &self,
        identifier: &str,
        version: Option<&str>,
        sudo_available: bool,
    ) -> (r: Result<InstallCommand, InstallError>)
        ensures
            match self.install_command_spec(identifier@, opt_view(version), sudo_available) {
                Ok(c) => r matches Ok(cmd) && cmd@ == c,
                Err(f) => r matches Err(e) && e@ == f,
            },
            r matches Ok(cmd) ==> cmd.wf(),
    {
        let id = validate_identifier(identifier, self.name())?;
        let elevate = sudo_available && (*self == PackageManager::AptGet || *self
            == PackageManager::Dnf || *self == PackageManager::Pacman || *self
            == PackageManager::Zypper);
        if *self == PackageManager::Pacman || *self == PackageManager::Scoop {
            if version.is_some() {
                return Err(
                    InstallError::VersionPinUnsupported { manager: String::from_str(self.name()) },
                );
            }
            let args = match self {
                PackageManager::Pacman => vec![String::from_str("-S"), String::from_str(id)],
                _ => vec![String::from_str("install"), String::from_str(id)],
            };
            let r = with_optional_sudo(self.executable(), args, elevate);
            proof {
                assert(views_of(args@) =~= self.install_args(id@, None));
            }
            return Ok(r);
        }
        let v = validate_version(version, self.name())?;
        match self {
            PackageManager::Brew => {
                let formula = build_brew_identifier(id, v)?;
                let args = vec![String::from_str("install"), formula];
                proof {
                    assert(views_of(args@) =~= self.install_args(formula@, None));
                }
                Ok(InstallCommand::new(String::from_str(self.executable()), args))
            },
            PackageManager::AptGet | PackageManager::Zypper | PackageManager::Dnf => {
                let sep = if *self == PackageManager::Dnf {
                    "-"
                } else {
                    "="
                };
                let spec = joined(id, sep, v);
                let args = vec![String::from_str("install"), spec];
                proof {
                    assert(views_of(args@) =~= self.install_args(id@, opt_view(v)));
                }
                Ok(with_optional_sudo(self.executable(), args, elevate))
            },
            PackageManager::Winget => {
                let mut args = vec![
                    String::from_str("install"),
                    String::from_str("--id"),
                    String::from_str(id),
                    String::from_str("--exact"),
                    String::from_str("--accept-source-agreements"),
                    String::from_str("--accept-package-agreements"),
                ];
                let ghost base = views_of(args@);
                push_version_option(&mut args, v);
                proof {
                    assert(base =~= seq![
                        "install"@,
                        "--id"@,
                        id@,
                        "--exact"@,
                        "--accept-source-agreements"@,
                        "--accept-package-agreements"@,
                    ]);
                }
                Ok(InstallCommand::new(String::from_str(self.executable()), args))
            },
            _ => {
                let mut args = vec![String::from_str("install"), String::from_str(id)];
                let ghost base = views_of(args@);
                push_version_option(&mut args, v);
                proof {
                    assert(base =~= seq!["install"@, id@]);
                }
                Ok(InstallCommand::new(String::from_str(self.executable()), args))
            },
        }
    }

    /// Puts the backend's non-interactive flag right after its install
    /// subcommand, unless it is there already; a no-op for the backends
    /// without such a flag.
    pub fn apply_yes_flag(&self, command: &mut InstallCommand)
        ensures
            final(command)@ == self.yes_flag_spec(old(command)@),
    {
        match self {
            PackageManager::Pacman => insert_after_subcommand(command, "-S", "--noconfirm"),
            PackageManager::Winget => insert_after_subcommand(command, "install", "--silent"),
            PackageManager::Brew | PackageManager::Scoop => {},
            _ => insert_after_subcommand(command, "install", "-y"),
        }
    }
}

/// `identifier` trimmed; an error when nothing is left.
pub fn validate_identifier<'a>(identifier: &'a str, manager: &str)
    -> (r: Result<&'a str, InstallError>)
    ensures
        trim(identifier@).len() == 0 ==> (r matches Err(e) && e@ == (Failure::EmptyIdentifier {
            manager: manager@,
        })),
        trim(identifier@).len() > 0 ==> (r matches Ok(t) && t@ == trim(identifier@)),
{
    let trimmed = trim_str(identifier);
    if trimmed.unicode_len() == 0 {
        return Err(InstallError::EmptyIdentifier { manager: String::from_str(manager) });
    }
    Ok(trimmed)
}

/// `version` trimmed, when one is given; an error when it is blank or holds
/// white space.
pub fn validate_version<'a>(version: Option<&'a str>, manager: &str)
    -> (r: Result<Option<&'a str>, InstallError>)
    ensures
        match checked_version(manager@, opt_view(version)) {
            Ok(v) => r matches Ok(o) && opt_view(o) == v,
            Err(f) => r matches Err(e) && e@ == f,
        },
{
    let raw = match version {
        None => return Ok(None),
        Some(raw) => raw,
    };
    let trimmed = trim_str(raw);
    if trimmed.unicode_len() == 0 {
        return Err(InstallError::EmptyVersion { manager: String::from_str(manager) });
    }
    if contains_whitespace(trimmed) {
        return Err(
            InstallError::VersionHasWhitespace {
                manager: String::from_str(manager),
                version: String::from_str(trimmed),
            },
        );
    }
    Ok(Some(trimmed))
}

/// The Homebrew formula for `identifier` at `version`: see `brew_formula`.
pub fn build_brew_identifier(identifier: &str, version: Option<&str>)
    -> (r: Result<String, InstallError>)
    ensures
        match brew_formula(identifier@, opt_view(version)) {
            Ok(s) => r matches Ok(t) && t@ == s,
            Err(f) => r matches Err(e) && e@ == f,
        },
{
    let v = match version {
        None => return Ok(String::from_str(identifier)),
        Some(v) => v,
    };
    let n = identifier.unicode_len();
    proof {
        crate::text::lemma_last_index_of(identifier@, '@');
    }
    match last_position(identifier, '@') {
        Some(k) => {
            let existing = identifier.substring_char(k + 1, n);
            if crate::text::str_eq(existing, v) {
                Ok(String::from_str(identifier))
            } else {
                Err(
                    InstallError::BrewVersionConflict {
                        identifier: String::from_str(identifier),
                        existing: String::from_str(existing),
                        requested: String::from_str(v),
                    },
                )
            }
        },
        None => {
            let trailing_slash = n > 0 && identifier.get_char(n - 1) == '/';
            if trailing_slash || contains_whitespace(identifier) {
                return Err(
                    InstallError::BrewNotDerivable {
                        identifier: String::from_str(identifier),
                        version: String::from_str(v),
                    },
                );
            }
            let mut out = String::from_str(identifier);
            out.append("@");
            out.append(v);
            Ok(out)
        },
    }
}

/// `id`, or `id`, `sep` and `v` run together.
fn joined(id: &str, sep: &str, v: Option<&str>) -> (r: String)
    ensures
        r@ == joined_spec(id@, sep@, opt_view(v)),
{
    let mut out = String::from_str(id);
    if let Some(v) = v {
        out.append(sep);
        out.append(v);
    }
    out
}

fn push_version_option(args: &mut Vec<String>, v: Option<&str>)
    ensures
        views_of(final(args)@) == with_version_option(views_of(old(args)@), opt_view(v)),
{
    if let Some(v) = v {
        args.push(String::from_str("--version"));
        args.push(String::from_str(v));
    }
    proof {
        assert(views_of(final(args)@) =~= with_version_option(views_of(old(args)@), opt_view(v)));
    }
}

/// `executable args`, run under `sudo` when `elevate` holds.
pub fn with_optional_sudo(executable: &str, args: Vec<String>, elevate: bool)
    -> (r: InstallCommand)
    requires
        executable@.len() > 0,
    ensures
        r.wf(),
        r@ == elevated(executable@, views_of(args@), elevate),
{
    if elevate {
        let mut sudo_args: Vec<String> = Vec::new();
        sudo_args.push(String::from_str(executable));
        let n = args.len();
        let mut i: usize = 0;
        while i < n
            invariant
                n == args@.len(),
                i <= n,
                views_of(sudo_args@) == seq![executable@] + views_of(args@.subrange(0, i as int)),
            decreases n - i,
        {
            let ghost before = sudo_args@;
            let item = args[i].clone();
            sudo_args.push(item);
            proof {
                assert(sudo_args@ == before.push(item));
                assert(item@ == args@[i as int]@);
                assert(views_of(sudo_args@) =~= views_of(before).push(args@[i as int]@));
                assert(views_of(args@.subrange(0, i + 1)) =~= views_of(args@.subrange(0, i as int))
                    + seq![args@[i as int]@]);
                assert(views_of(sudo_args@) =~= seq![executable@] + views_of(
                    args@.subrange(0, i + 1),
                ));
            }
            i = i + 1;
        }
        proof {
            assert(args@.subrange(0, n as int) =~= args@);
        }
        proof {
            reveal_strlit("sudo");
        }
        InstallCommand::new(String::from_str("sudo"), sudo_args)
    } else {
        InstallCommand::new(String::from_str(executable), args)
    }
}

/// Puts `flag` right after the first `subcommand` argument (at the end when
/// there is none), unless `flag` is already an argument.
pub fn insert_after_subcommand(command: &mut InstallCommand, subcommand: &str, flag: &str)
    ensures
        final(command)@ == (CommandView {
            program: old(command)@.program,
            args: insert_after(old(command)@.args, subcommand@, flag@),
        }),
{
    let n = command.args.len();
    let mut i: usize = 0;
    let mut position: Option<usize> = None;
    while i < n
        invariant
            n == command.args@.len(),
            i <= n,
            forall|j: int| 0 <= j < i ==> (#[trigger] command.args@[j])@ != flag@,
            match position {
                Some(p) => p < i && command.args@[p as int]@ == subcommand@ && forall|j: int|
                    0 <= j < p ==> (#[trigger] command.args@[j])@ != subcommand@,
                None => forall|j: int| 0 <= j < i ==> (#[trigger] command.args@[j])@ != subcommand@,
            },
        decreases n - i,
    {
        if crate::text::str_eq(command.args[i].as_str(), flag) {
            proof {
                assert(command@.args[i as int] == flag@);
                assert(command@.args.contains(flag@));
            }
            return;
        }
        if position.is_none() && crate::text::str_eq(command.args[i].as_str(), subcommand) {
            position = Some(i);
        }
        i = i + 1;
    }
    let ghost args = command@.args;
    proof {
        assert(!args.contains(flag@)) by {
            assert forall|j: int| 0 <= j < args.len() implies args[j] != flag@ by {
                assert(command.args@[j]@ != flag@);
            }
        }
        crate::text::lemma_first_index_of(args, subcommand@);
    }
    match position {
        Some(p) => {
            proof {
                match crate::text::first_index_of(args, subcommand@) {
                    Some(q) => {
                        if q < p {
                            assert(command.args@[q]@ != subcommand@);
                        }
                        if p < q {
                            assert(args[p as int] == subcommand@);
                        }
                    },
                    None => {
                        assert(args[p as int] == subcommand@);
                    },
                }
            }
            command.args.insert(p + 1, String::from_str(flag));
            proof {
                assert(command@.args =~= args.insert(p + 1, flag@));
            }
        },
        None => {
            proof {
                if let Some(q) = crate::text::first_index_of(args, subcommand@) {
                    assert(command.args@[q]@ != subcommand@);
                }
            }
            command.args.push(String::from_str(flag));
            proof {
                assert(command@.args =~= args.push(flag@));
            }
        },
    }
}

/// `insert_after` leaves `flag` among the arguments.
proof fn lemma_insert_after_contains(args: Seq<Seq<char>>, sub: Seq<char>, flag: Seq<char>)
    ensures
        insert_after(args, sub, flag).contains(flag),
{
    if !args.contains(flag) {
        crate::text::lemma_first_index_of(args, sub);
        match crate::text::first_index_of(args, sub) {
            Some(i) => {
                assert(args.insert(i + 1, flag)[i + 1] == flag);
            },
            None => {
                assert(args.push(flag)[args.len() as int] == flag);
            },
        }
    }
}

/// Applying the non-interactive flag twice gives the arguments that applying
/// it once gives.
pub proof fn lemma_yes_flag_idempotent(manager: PackageManager, c: CommandView)
    ensures
        manager.yes_flag_spec(manager.yes_flag_spec(c)) == manager.yes_flag_spec(c),
{
    if let Some(flag) = manager.yes_flag() {
        lemma_insert_after_contains(c.args, manager.install_token(), flag);
    }
}

/// A backend that cannot pin versions refuses every request that names one.
pub proof fn lemma_unpinnable_refuses_versions(
    manager: PackageManager,
    identifier: Seq<char>,
    version: Seq<char>,
    sudo_available: bool,
)
    requires
        manager == PackageManager::Pacman || manager == PackageManager::Scoop,
        trim(identifier).len() > 0,
    ensures
        manager.install_command_spec(identifier, Some(version), sudo_available) matches Err(f)
            && f.kind() == crate::error::ErrorKind::UnsupportedOperation,
{
}

} // verus!
