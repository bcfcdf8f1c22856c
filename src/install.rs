//! Identifier and version resolution, the install plan, and running it.
use vstd::prelude::*;
use vstd::string::*;

use crate::command::{rendered, CommandView, InstallCommand};
use crate::config::{key_index_ignoring_case, InstallSpec, LoadedProjectConfig};
use crate::error::{ErrorKind, Failure, InstallError};
use crate::manager::{opt_view, PackageManager};
use crate::selection::{
    candidates_spec, detect_package_manager, detection_candidates, manager_for_alias,
    package_manager_from_name, selection_spec, Platform,
};
use crate::target::{parse_target_spec, target_of};
use crate::session::{Executor, Session};
use crate::text::trim;

verus! {

/// The identifier under the first of `keys` that `entry` configures.
pub open spec fn first_configured(entry: InstallSpec, keys: Seq<Seq<char>>) -> Option<Seq<char>>
    decreases keys.len(),
{
    if keys.len() == 0 {
        None
    } else {
        match entry.spec_identifier(keys[0]) {
            Some(v) => Some(v),
            None => first_configured(entry, keys.drop_first()),
        }
    }
}

/// The identifier for `manager`: the entry's bare identifier, else the one
/// under one of the manager's keys, else the one under `default`, else the
/// logical name.
pub open spec fn resolved_identifier(
    entry: InstallSpec,
    manager: PackageManager,
    logical_name: Seq<char>,
) -> Seq<char> {
    match entry {
        InstallSpec::Identifier(g) => g@,
        InstallSpec::Detailed { .. } => match first_configured(entry, manager.spec_config_keys()) {
            Some(v) => v,
            None => match entry.spec_identifier("default"@) {
                Some(v) => v,
                None => logical_name,
            },
        },
    }
}

/// The version: the inline one, else the configured one, else none.
pub open spec fn resolved_version(inline: Option<Seq<char>>, entry: Option<InstallSpec>) -> Option<
    Seq<char>,
> {
    match inline {
        Some(v) => Some(v),
        None => match entry {
            Some(e) => e.spec_version(),
            None => None,
        },
    }
}

/// The configuration entry for `name`, matched up to case.
pub open spec fn entry_for(config: Option<LoadedProjectConfig>, name: Seq<char>) -> Option<
    InstallSpec,
> {
    match config {
        Some(c) => match key_index_ignoring_case(c.data.install@, name) {
            Some(i) => Some(c.data.install@[i].1),
            None => None,
        },
        None => None,
    }
}

/// The key under which the configuration holds the entry for `name`.
pub open spec fn entry_key(config: Option<LoadedProjectConfig>, name: Seq<char>) -> Option<
    Seq<char>,
> {
    match config {
        Some(c) => match key_index_ignoring_case(c.data.install@, name) {
            Some(i) => Some(c.data.install@[i].0@),
            None => None,
        },
        None => None,
    }
}

/// The configured version that an inline version replaces: reported, not an
/// error.
pub open spec fn replaced_version_spec(inline: Option<Seq<char>>, entry: Option<InstallSpec>) -> Option<
    Seq<char>,
> {
    match (inline, entry) {
        (Some(_), Some(e)) => e.spec_version(),
        _ => None,
    }
}

/// What an install plan is.
pub ghost struct PlanView {
    pub manager: PackageManager,
    pub target: Seq<char>,
    pub config_key: Option<Seq<char>>,
    pub identifier: Seq<char>,
    pub version: Option<Seq<char>>,
    pub replaced_version: Option<Seq<char>>,
    pub command: CommandView,
}

/// The plan for `raw_spec` on `manager`; `sudo_available` as for
/// `build_install_cmd`, `non_interactive` to add the manager's yes flag.
pub open spec fn plan_spec(
    raw_spec: Seq<char>,
    config: Option<LoadedProjectConfig>,
    manager: PackageManager,
    sudo_available: bool,
    non_interactive: bool,
) -> Result<PlanView, Failure> {
    match target_of(raw_spec) {
        None => Err(Failure::InvalidTargetSpec { spec: raw_spec }),
        Some((name, inline)) => {
            let entry = entry_for(config, name);
            let identifier = match entry {
                Some(e) => resolved_identifier(e, manager, name),
                None => name,
            };
            let version = resolved_version(inline, entry);
            match manager.install_command_spec(identifier, version, sudo_available) {
                Err(f) => Err(f),
                Ok(c) => Ok(
                    PlanView {
                        manager,
                        target: name,
                        config_key: entry_key(config, name),
                        identifier,
                        version,
                        replaced_version: replaced_version_spec(inline, entry),
                        command: if non_interactive {
                            manager.yes_flag_spec(c)
                        } else {
                            c
                        },
                    },
                ),
            }
        },
    }
}

pub open spec fn config_of(config: Option<&LoadedProjectConfig>) -> Option<LoadedProjectConfig> {
    match config {
        Some(c) => Some(*c),
        None => None,
    }
}

pub open spec fn opt_string_view(o: Option<String>) -> Option<Seq<char>> {
    match o {
        Some(s) => Some(s@),
        None => None,
    }
}

/// A resolved, ready-to-run decision.
#[derive(Debug, Clone)]
pub struct InstallPlan {
    pub manager: PackageManager,
    pub target: String,
    /// The key of the configuration entry that was used, if any.
    pub config_key: Option<String>,
    pub identifier: String,
    pub version: Option<String>,
    /// The configured version that an inline version replaced, if any.
    pub replaced_version: Option<String>,
    pub command: InstallCommand,
}

impl View for InstallPlan {
    type V = PlanView;

    open spec fn view(&self) -> PlanView {
        PlanView {
            manager: self.manager,
            target: self.target@,
            config_key: opt_string_view(self.config_key),
            identifier: self.identifier@,
            version: opt_string_view(self.version),
            replaced_version: opt_string_view(self.replaced_version),
            command: self.command@,
        }
    }
}

/// The identifier that `manager` is asked to install: see
/// `resolved_identifier`.
pub fn resolve_identifier(spec: &InstallSpec, manager: PackageManager, logical_name: &str) -> (r:
    String)
    ensures
        r@ == resolved_identifier(*spec, manager, logical_name@),
{
    if let InstallSpec::Identifier(global) = spec {
        return global.clone();
    }
    let keys = manager.config_keys();
    let ghost all = keys@.map_values(|k: &str| k@);
    let mut i: usize = 0;
    proof {
        assert(all.subrange(0, all.len() as int) =~= all);
    }
    while i < keys.len()
        invariant
            all == keys@.map_values(|k: &str| k@),
            all == manager.spec_config_keys(),
            i <= keys@.len(),
            first_configured(*spec, all) == first_configured(
                *spec,
                all.subrange(i as int, all.len() as int),
            ),
        decreases keys@.len() - i,
    {
        let ghost rest = all.subrange(i as int, all.len() as int);
        proof {
            assert(rest[0] == keys@[i as int]@);
            assert(rest.drop_first() =~= all.subrange(i + 1, all.len() as int));
        }
        if let Some(id) = spec.identifier(keys[i]) {
            return String::from_str(id);
        }
        i = i + 1;
    }
    proof {
        assert(all.subrange(i as int, all.len() as int).len() == 0);
    }
    match spec.identifier("default") {
        Some(id) => String::from_str(id),
        None => String::from_str(logical_name),
    }
}

fn owned(o: Option<&str>) -> (r: Option<String>)
    ensures
        opt_string_view(r) == opt_view(o),
{
    match o {
        Some(s) => Some(String::from_str(s)),
        None => None,
    }
}

/// Builds the plan for `raw_spec` once `manager` is chosen: see `plan_spec`.
pub fn build_plan(
    raw_spec: &str,
    config: Option<&LoadedProjectConfig>,
    manager: PackageManager,
    sudo_available: bool,
    non_interactive: bool,
) -> (r: Result<InstallPlan, InstallError>)
    ensures
        match plan_spec(
            raw_spec@,
            config_of(config),
            manager,
            sudo_available,
            non_interactive,
        ) {
            Ok(p) => r matches Ok(plan) && plan@ == p,
            Err(f) => r matches Err(e) && e@ == f,
        },
        r matches Ok(plan) ==> plan.command.wf(),
{
    let ghost cfg = config_of(config);
    let target = parse_target_spec(raw_spec)?;
    let name = target.logical_name.as_str();
    let inline = match &target.inline_version {
        Some(v) => Some(v.as_str()),
        None => None,
    };
    let pair = match config {
        Some(c) => c.install_target(name),
        None => None,
    };
    let entry = match pair {
        Some(p) => Some(&p.1),
        None => None,
    };
    let config_key = match pair {
        Some(p) => Some(p.0.clone()),
        None => None,
    };
    proof {
        let e = match entry {
            Some(e) => Some(*e),
            None => None,
        };
        assert(e == entry_for(cfg, name@));
        assert(opt_string_view(config_key) == entry_key(cfg, name@));
    }
    let identifier = match entry {
        Some(e) => resolve_identifier(e, manager, name),
        None => String::from_str(name),
    };
    let configured = match entry {
        Some(e) => e.version(),
        None => None,
    };
    let (version, replaced_version) = match inline {
        Some(v) => (Some(v), owned(configured)),
        None => (configured, None),
    };
    let mut command = manager.build_install_cmd(identifier.as_str(), version, sudo_available)?;
    if non_interactive {
        manager.apply_yes_flag(&mut command);
    }
    Ok(
        InstallPlan {
            manager,
            target: String::from_str(name),
            config_key,
            identifier,
            version: owned(version),
            replaced_version,
            command,
        },
    )
}

/// How a spawned installer ended.
#[derive(Debug, Clone, Copy, PartialEq, Eq, Structural)]
pub enum SpawnOutcome {
    /// The process could not be started.
    NotStarted,
    /// The process ran; `code` is its exit code when it has one.
    Exited { success: bool, code: Option<i32> },
}

/// What the run of `command_line` amounts to.
pub open spec fn outcome_spec(command_line: Seq<char>, outcome: SpawnOutcome) -> Result<
    (),
    Failure,
> {
    match outcome {
        SpawnOutcome::NotStarted => Err(Failure::SpawnFailed { command: command_line }),
        SpawnOutcome::Exited { success, code } => if success {
            Ok(())
        } else {
            Err(
                Failure::InstallerFailed {
                    code: match code {
                        Some(c) => c,
                        None => 1,
                    },
                },
            )
        },
    }
}

/// Maps how the installer ended to the result of the install.
pub fn outcome_result(command_line: &str, outcome: SpawnOutcome) -> (r: Result<(), InstallError>)
    ensures
        match outcome_spec(command_line@, outcome) {
            Ok(()) => r is Ok,
            Err(f) => r matches Err(e) && e@ == f,
        },
{
    match outcome {
        SpawnOutcome::NotStarted => Err(
            InstallError::SpawnFailed { command: String::from_str(command_line) },
        ),
        SpawnOutcome::Exited { success, code } => {
            if success {
                Ok(())
            } else {
                let code = match code {
                    Some(c) => c,
                    None => 1,
                };
                Err(InstallError::InstallerFailed { code })
            }
        },
    }
}

/// The line shown before a command runs, or instead of running it.
pub open spec fn progress_line_spec(command: CommandView, dry_run: bool) -> Seq<char> {
    (if dry_run {
        "Dry run: "@
    } else {
        "Executing: "@
    }) + rendered(command.program, command.args)
}

/// The line shown for `command`: see `progress_line_spec`.
pub fn progress_line(command: &InstallCommand, dry_run: bool) -> (r: String)
    ensures
        r@ == progress_line_spec(command@, dry_run),
{
    let mut line = if dry_run {
        String::from_str("Dry run: ")
    } else {
        String::from_str("Executing: ")
    };
    let rendered_command = command.render();
    line.append(rendered_command.as_str());
    line
}

/// What a run amounts to: `Ok` when it went well, else the failure that
/// `outcome_spec` gives for the way `command` ended.
pub open spec fn run_result_spec(command: CommandView, outcome: SpawnOutcome) -> Result<
    (),
    Failure,
> {
    outcome_spec(rendered(command.program, command.args), outcome)
}

/// Shows the command; unless `dry_run`, runs it once. A dry run runs nothing
/// and always succeeds; a real run adds exactly one entry to the session's
/// runs, for `command`, and its result is what that run amounts to.
pub fn execute_or_dry_run<E: Executor>(
    command: &InstallCommand,
    dry_run: bool,
    session: &mut Session<E>,
) -> (r: Result<(), InstallError>)
    ensures
        final(session).probes() == old(session).probes(),
        final(session).shown() == old(session).shown().push(progress_line_spec(command@, dry_run)),
        dry_run ==> (r is Ok && final(session).spawns() == old(session).spawns()),
        !dry_run ==> final(session).spawns() == old(session).spawns().push(
            (command@, final(session).spawns().last().1),
        ),
        !dry_run ==> match run_result_spec(command@, final(session).spawns().last().1) {
            Ok(()) => r is Ok,
            Err(f) => r matches Err(e) && e@ == f,
        },
{
    let line = progress_line(command, dry_run);
    session.show(line.as_str());
    if dry_run {
        return Ok(());
    }
    let rendered_command = command.render();
    let outcome = session.spawn(command);
    outcome_result(rendered_command.as_str(), outcome)
}

/// The backend to probe next, given the answers of the probes made so far, in
/// order: the override's backend alone when it names one; else the
/// platform's candidates in order, up to the first that answers.
pub open spec fn next_probe_spec(
    override_name: Option<Seq<char>>,
    platform: Platform,
    answered: Seq<bool>,
) -> Option<PackageManager> {
    match override_name {
        Some(raw) => if answered.len() == 0 {
            manager_for_alias(trim(raw))
        } else {
            None
        },
        None => if answered.contains(true) || answered.len() >= candidates_spec(platform).len() {
            None
        } else {
            Some(candidates_spec(platform)[answered.len() as int])
        },
    }
}

/// The backend to probe next: see `next_probe_spec`.
pub fn next_probe(override_name: Option<&str>, platform: Platform, answered: &Vec<bool>)
    -> (r: Option<PackageManager>)
    ensures
        r == next_probe_spec(opt_view(override_name), platform, answered@),
        r is Some ==> answered@.len() < 8,
{
    if let Some(raw) = override_name {
        if answered.len() == 0 {
            return package_manager_from_name(raw);
        }
        return None;
    }
    let mut i: usize = 0;
    while i < answered.len()
        invariant
            i <= answered@.len(),
            forall|j: int| 0 <= j < i ==> !answered@[j],
        decreases answered@.len() - i,
    {
        if answered[i] {
            proof {
                assert(answered@[i as int]);
                assert(answered@.contains(true));
            }
            return None;
        }
        i = i + 1;
    }
    proof {
        assert(!answered@.contains(true));
    }
    let candidates = detection_candidates(platform);
    if answered.len() >= candidates.len() {
        return None;
    }
    Some(candidates[answered.len()])
}

/// The lines that report a plan: the manager, the configuration entry used,
/// the identifier and the version.
pub open spec fn plan_lines_spec(p: PlanView) -> Seq<Seq<char>> {
    seq!["Detected package manager: "@ + p.manager.spec_name()] + match p.config_key {
        Some(k) => seq!["Using configuration entry `"@ + k + "`"@],
        None => Seq::empty(),
    } + seq!["Resolved identifier: "@ + p.identifier] + seq![
        match p.version {
            Some(v) => match p.replaced_version {
                Some(c) => "Desired version: "@ + v + " (overrides configured version "@ + c
                    + ")"@,
                None => "Desired version: "@ + v,
            },
            None => "Desired version: latest"@,
        },
    ]
}

/// The lines that report `plan`: see `plan_lines_spec`.
pub fn plan_lines(plan: &InstallPlan) -> (r: Vec<String>)
    ensures
        r@.map_values(|s: String| s@) == plan_lines_spec(plan@),
{
    let mut lines: Vec<String> = Vec::new();
    let mut line = String::from_str("Detected package manager: ");
    line.append(plan.manager.name());
    lines.push(line);
    if let Some(key) = &plan.config_key {
        let mut line = String::from_str("Using configuration entry `");
        line.append(key.as_str());
        line.append("`");
        lines.push(line);
    }
    let mut line = String::from_str("Resolved identifier: ");
    line.append(plan.identifier.as_str());
    lines.push(line);
    let last = match &plan.version {
        Some(v) => {
            let mut line = String::from_str("Desired version: ");
            line.append(v.as_str());
            if let Some(configured) = &plan.replaced_version {
                line.append(" (overrides configured version ");
                line.append(configured.as_str());
                line.append(")");
            }
            line
        },
        None => String::from_str("Desired version: latest"),
    };
    lines.push(last);
    proof {
        assert(lines@.map_values(|s: String| s@) =~= plan_lines_spec(plan@));
    }
    lines
}

/// The backend whose executable is `e`, if any.
pub open spec fn manager_of_executable(e: Seq<char>) -> Option<PackageManager> {
    if e == "apt-get"@ {
        Some(PackageManager::AptGet)
    } else if e == "dnf"@ {
        Some(PackageManager::Dnf)
    } else if e == "pacman"@ {
        Some(PackageManager::Pacman)
    } else if e == "zypper"@ {
        Some(PackageManager::Zypper)
    } else if e == "brew"@ {
        Some(PackageManager::Brew)
    } else if e == "winget"@ {
        Some(PackageManager::Winget)
    } else if e == "choco"@ {
        Some(PackageManager::Chocolatey)
    } else if e == "scoop"@ {
        Some(PackageManager::Scoop)
    } else {
        None
    }
}

proof fn lemma_executables()
    ensures
        forall|m: PackageManager| #[trigger]
            manager_of_executable(m.spec_executable()) == Some(m) && m.spec_executable()
                != "sudo"@,
        manager_of_executable("sudo"@) is None,
{
    reveal_strlit("apt-get");
    reveal_strlit("dnf");
    reveal_strlit("pacman");
    reveal_strlit("zypper");
    reveal_strlit("brew");
    reveal_strlit("winget");
    reveal_strlit("choco");
    reveal_strlit("scoop");
    reveal_strlit("sudo");
    assert("apt-get"@.len() == 7 && "dnf"@.len() == 3 && "pacman"@.len() == 6 && "zypper"@.len()
        == 6 && "brew"@.len() == 4 && "winget"@.len() == 6 && "choco"@.len() == 5
        && "scoop"@.len() == 5 && "sudo"@.len() == 4);
    assert("pacman"@ != "zypper"@) by {
        assert("pacman"@[0] != "zypper"@[0]);
    }
    assert("pacman"@ != "winget"@) by {
        assert("pacman"@[0] != "winget"@[0]);
    }
    assert("zypper"@ != "winget"@) by {
        assert("zypper"@[0] != "winget"@[0]);
    }
    assert("choco"@ != "scoop"@) by {
        assert("choco"@[0] != "scoop"@[0]);
    }
    assert("brew"@ != "sudo"@) by {
        assert("brew"@[0] != "sudo"@[0]);
    }
    assert forall|m: PackageManager| #[trigger]
        manager_of_executable(m.spec_executable()) == Some(m) && m.spec_executable()
            != "sudo"@ by {
        match m {
            PackageManager::AptGet => {},
            PackageManager::Dnf => {},
            PackageManager::Pacman => {},
            PackageManager::Zypper => {},
            PackageManager::Brew => {},
            PackageManager::Winget => {},
            PackageManager::Chocolatey => {},
            PackageManager::Scoop => {},
        }
    }
}

/// The backends whose executables answered among `probes`, in order.
pub open spec fn answered_managers(probes: Seq<(Seq<char>, bool)>) -> Seq<PackageManager>
    decreases probes.len(),
{
    if probes.len() == 0 {
        Seq::empty()
    } else {
        let rest = answered_managers(probes.drop_last());
        match manager_of_executable(probes.last().0) {
            Some(m) => if probes.last().1 {
                rest.push(m)
            } else {
                rest
            },
            None => rest,
        }
    }
}

/// Whether `sudo` answered among `probes`.
pub open spec fn sudo_answered(probes: Seq<(Seq<char>, bool)>) -> bool {
    probes.contains(("sudo"@, true))
}

/// Whether `manager` runs under `sudo`: it wants elevation, the host is not
/// Windows, and `sudo` answered its probe.
pub open spec fn elevation_for(
    manager: PackageManager,
    platform: Platform,
    probes: Seq<(Seq<char>, bool)>,
) -> bool {
    manager.wants_elevation() && platform != Platform::Windows && sudo_answered(probes)
}

/// What `after` holds beyond its prefix `before`.
pub open spec fn added<A>(before: Seq<A>, after: Seq<A>) -> Seq<A> {
    after.subrange(before.len() as int, after.len() as int)
}

pub open spec fn result_view(r: Result<InstallPlan, InstallError>) -> Result<PlanView, Failure> {
    match r {
        Ok(p) => Ok(p@),
        Err(e) => Err(e@),
    }
}

/// What an install of `raw` does, given the probes it made (`fresh`): the
/// lines it shows, the commands it runs and its result. Nothing is shown or
/// run unless parsing, selection and the build all succeed; then the plan is
/// reported, and the command is shown (dry run) or run exactly once.
pub open spec fn install_holds(
    raw: Seq<char>,
    dry_run: bool,
    non_interactive: bool,
    override_name: Option<Seq<char>>,
    platform: Platform,
    config: Option<LoadedProjectConfig>,
    fresh: Seq<(Seq<char>, bool)>,
    shown_before: Seq<Seq<char>>,
    shown_after: Seq<Seq<char>>,
    spawns_before: Seq<(CommandView, SpawnOutcome)>,
    spawns_after: Seq<(CommandView, SpawnOutcome)>,
    r: Result<PlanView, Failure>,
) -> bool {
    match target_of(raw) {
        None => r == Err::<PlanView, Failure>(Failure::InvalidTargetSpec { spec: raw })
            && fresh.len() == 0 && shown_after == shown_before && spawns_after == spawns_before,
        Some(_) => match selection_spec(override_name, platform, answered_managers(fresh)) {
            Err(f) => r == Err::<PlanView, Failure>(f) && shown_after == shown_before
                && spawns_after == spawns_before,
            Ok(m) => match plan_spec(
                raw,
                config,
                m,
                elevation_for(m, platform, fresh),
                non_interactive,
            ) {
                Err(f) => r == Err::<PlanView, Failure>(f) && shown_after == shown_before
                    && spawns_after == spawns_before,
                Ok(p) => shown_after == shown_before + plan_lines_spec(p) + seq![
                    progress_line_spec(p.command, dry_run),
                ] && if dry_run {
                    r == Ok::<PlanView, Failure>(p) && spawns_after == spawns_before
                } else {
                    spawns_after == spawns_before.push((p.command, spawns_after.last().1)) && r
                        == match run_result_spec(p.command, spawns_after.last().1) {
                        Ok(()) => Ok::<PlanView, Failure>(p),
                        Err(f) => Err(f),
                    }
                },
            },
        },
    }
}

/// Installs `raw_spec` (`name[:version]`) through `session`: selects the
/// manager (the override when set, else detection on `platform`, probing as
/// `next_probe` says), resolves identifier and version against `config`,
/// reports the plan with `plan_lines`, and runs the command once, or only
/// shows it when `dry_run`. What it shows, runs and returns is
/// `install_holds` of the probes it made.
pub fn install_target<E: Executor>(
    raw_spec: &str,
    dry_run: bool,
    non_interactive: bool,
    override_name: Option<&str>,
    platform: Platform,
    config: Option<&LoadedProjectConfig>,
    session: &mut Session<E>,
) -> (r: Result<InstallPlan, InstallError>)
    ensures
        final(session).probes().len() >= old(session).probes().len(),
        final(session).probes().subrange(0, old(session).probes().len() as int) == old(
            session,
        ).probes(),
        install_holds(
            raw_spec@,
            dry_run,
            non_interactive,
            opt_view(override_name),
            platform,
            config_of(config),
            added(old(session).probes(), final(session).probes()),
            old(session).shown(),
            final(session).shown(),
            old(session).spawns(),
            final(session).spawns(),
            result_view(r),
        ),
{
    let ghost p0 = session.probes();
    let ghost s0 = session.shown();
    let ghost r0 = session.spawns();
    let target = parse_target_spec(raw_spec);
    if let Err(e) = target {
        proof {
            assert(added(p0, session.probes()) =~= Seq::<(Seq<char>, bool)>::empty());
        }
        return Err(e);
    }
    proof {
        lemma_executables();
    }
    let ghost mut fresh: Seq<(Seq<char>, bool)> = Seq::empty();
    let mut answered: Vec<bool> = Vec::new();
    let mut available: Vec<PackageManager> = Vec::new();
    proof {
        assert(p0 + fresh =~= p0);
    }
    loop
        invariant
            answered@.len() <= 8,
            session.probes() == p0 + fresh,
            session.shown() == s0,
            session.spawns() == r0,
            available@ == answered_managers(fresh),
            forall|i: int| 0 <= i < fresh.len() ==> (#[trigger] fresh[i]).0 != "sudo"@,
            forall|m: PackageManager| #[trigger]
                manager_of_executable(m.spec_executable()) == Some(m) && m.spec_executable()
                    != "sudo"@,
            manager_of_executable("sudo"@) is None,
        decreases 8 - answered@.len(),
    {
        match next_probe(override_name, platform, &answered) {
            None => break,
            Some(m) => {
                let answer = m.is_available(session);
                if answer {
                    available.push(m);
                }
                answered.push(answer);
                proof {
                    let before = fresh;
                    fresh = fresh.push((m.spec_executable(), answer));
                    assert(fresh.drop_last() =~= before);
                    assert(manager_of_executable(m.spec_executable()) == Some(m));
                    assert(p0 + fresh =~= (p0 + before).push((m.spec_executable(), answer)));
                }
            },
        }
    }
    let ghost loop_probes = fresh;
    let manager = match detect_package_manager(override_name, platform, &available) {
        Ok(m) => m,
        Err(e) => {
            proof {
                assert(added(p0, session.probes()) =~= fresh);
            }
            return Err(e);
        },
    };
    let elevation_wanted = manager == PackageManager::AptGet || manager == PackageManager::Dnf
        || manager == PackageManager::Pacman || manager == PackageManager::Zypper;
    let sudo_available = if elevation_wanted && platform != Platform::Windows {
        let answer = session.probe("sudo");
        proof {
            fresh = fresh.push(("sudo"@, answer));
            assert(fresh.drop_last() =~= loop_probes);
            assert(p0 + fresh =~= (p0 + loop_probes).push(("sudo"@, answer)));
            if answer {
                assert(fresh[fresh.len() - 1] == ("sudo"@, true));
            } else {
                assert forall|i: int| 0 <= i < fresh.len() implies fresh[i] != ("sudo"@, true) by {
                    if i < loop_probes.len() {
                        assert(fresh[i] == loop_probes[i]);
                    }
                }
            }
        }
        answer
    } else {
        proof {
            assert forall|i: int| 0 <= i < fresh.len() implies fresh[i] != ("sudo"@, true) by {
                assert(fresh[i].0 != "sudo"@);
            }
        }
        false
    };
    proof {
        assert(available@ == answered_managers(fresh));
        assert(sudo_available == elevation_for(manager, platform, fresh));
        assert(added(p0, session.probes()) =~= fresh);
    }
    let plan = build_plan(raw_spec, config, manager, sudo_available, non_interactive)?;
    let lines = plan_lines(&plan);
    let mut i: usize = 0;
    proof {
        assert(s0 + lines@.subrange(0, 0).map_values(|s: String| s@) =~= s0);
    }
    while i < lines.len()
        invariant
            i <= lines@.len(),
            session.probes() == p0 + fresh,
            session.spawns() == r0,
            session.shown() == s0 + lines@.subrange(0, i as int).map_values(|s: String| s@),
        decreases lines@.len() - i,
    {
        session.show(lines[i].as_str());
        proof {
            assert(lines@.subrange(0, i + 1).map_values(|s: String| s@) =~= lines@.subrange(
                0,
                i as int,
            ).map_values(|s: String| s@).push(lines@[i as int]@));
        }
        i = i + 1;
    }
    let ghost shown_plan = session.shown();
    proof {
        assert(lines@.subrange(0, lines@.len() as int) =~= lines@);
        assert(shown_plan == s0 + plan_lines_spec(plan@));
        assert(selection_spec(opt_view(override_name), platform, answered_managers(fresh)) == Ok::<
            PackageManager,
            Failure,
        >(manager));
    }
    let run = execute_or_dry_run(&plan.command, dry_run, session);
    proof {
        assert(session.shown() == shown_plan.push(progress_line_spec(plan@.command, dry_run)));
        assert(session.shown() =~= s0 + plan_lines_spec(plan@) + seq![
            progress_line_spec(plan@.command, dry_run),
        ]);
        assert(added(p0, session.probes()) =~= fresh);
    }
    match run {
        Ok(()) => Ok(plan),
        Err(e) => Err(e),
    }
}

} // verus!
