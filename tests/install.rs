use qbit_cli::command::InstallCommand;
use qbit_cli::config::{InstallSpec, LoadedProjectConfig, ProjectConfig};
use qbit_cli::error::ErrorKind;
use qbit_cli::install::{
    build_plan, execute_or_dry_run, install_target, next_probe, outcome_result, plan_lines,
    progress_line, resolve_identifier, SpawnOutcome,
};
use qbit_cli::manager::PackageManager;
use qbit_cli::session::{Executor, Session};
use qbit_cli::selection::{detect_package_manager, Platform};
use qbit_cli::target::parse_target_spec;

struct PanickingExecutor {
    shown: Vec<String>,
}

impl Executor for PanickingExecutor {
    fn is_available(&mut self, _executable: &str) -> bool {
        true
    }

    fn show(&mut self, line: &str) {
        self.shown.push(line.to_string());
    }

    fn spawn(&mut self, _command: &InstallCommand) -> SpawnOutcome {
        panic!("a dry run must not spawn");
    }
}

struct RecordingExecutor {
    available: Vec<&'static str>,
    outcome: SpawnOutcome,
    spawned: Vec<String>,
    shown: Vec<String>,
}

impl Executor for RecordingExecutor {
    fn is_available(&mut self, executable: &str) -> bool {
        self.available.contains(&executable)
    }

    fn show(&mut self, line: &str) {
        self.shown.push(line.to_string());
    }

    fn spawn(&mut self, command: &InstallCommand) -> SpawnOutcome {
        self.spawned.push(command.render());
        self.outcome
    }
}

fn python_config() -> LoadedProjectConfig {
    LoadedProjectConfig {
        path: "qbit.yml".to_string(),
        data: ProjectConfig {
            scripts: vec![],
            install: vec![(
                "python".to_string(),
                InstallSpec::Detailed {
                    version: Some("3.12".to_string()),
                    identifiers: vec![("winget".to_string(), "Python.Python.3.12".to_string())],
                },
            )],
        },
    }
}

#[test]
fn plain_name_parses_to_trimmed_name() {
    let t = parse_target_spec("  python ").expect("target");
    assert_eq!(t.logical_name, "python");
    assert_eq!(t.inline_version, None);
    let t = parse_target_spec("node : 20 ").expect("target");
    assert_eq!(t.logical_name, "node");
    assert_eq!(t.inline_version.as_deref(), Some("20"));
}

#[test]
fn blank_parts_are_invalid_input() {
    for raw in ["a:", ":b", "", "   ", " : "] {
        let err = parse_target_spec(raw).expect_err("must fail");
        assert_eq!(err.kind(), ErrorKind::InvalidInput);
    }
}

#[test]
fn dry_run_never_spawns() {
    let cmd = InstallCommand::new("apt-get".to_string(), vec!["install".to_string(), "git".to_string()]);
    let mut fake = Session::new(PanickingExecutor { shown: vec![] });
    assert!(execute_or_dry_run(&cmd, true, &mut fake).is_ok());
    assert_eq!(fake.executor().shown, vec!["Dry run: apt-get install git".to_string()]);
}

#[test]
fn execution_reports_installer_failures() {
    let cmd = InstallCommand::new("choco".to_string(), vec!["install".to_string(), "git".to_string()]);
    let mut exec = Session::new(RecordingExecutor {
        available: vec![],
        outcome: SpawnOutcome::Exited { success: false, code: Some(-5) },
        spawned: vec![],
        shown: vec![],
    });
    let err = execute_or_dry_run(&cmd, false, &mut exec).expect_err("must fail");
    assert_eq!(err.kind(), ErrorKind::InstallerFailed);
    assert_eq!(err.to_string(), "Installer failed with exit code -5");
    assert_eq!(exec.executor().spawned, vec!["choco install git".to_string()]);
    assert_eq!(exec.executor().shown, vec!["Executing: choco install git".to_string()]);
    let err = outcome_result("x", SpawnOutcome::NotStarted).expect_err("must fail");
    assert_eq!(err.kind(), ErrorKind::SpawnFailed);
    let err = outcome_result("x", SpawnOutcome::Exited { success: false, code: None }).expect_err("fail");
    assert_eq!(err.to_string(), "Installer failed with exit code 1");
    assert!(outcome_result("x", SpawnOutcome::Exited { success: true, code: Some(0) }).is_ok());
}

#[test]
fn winget_override_end_to_end() {
    let pm = detect_package_manager(Some("winget"), Platform::Linux, &vec![PackageManager::Winget])
        .expect("manager");
    let plan = build_plan("Vendor.App:2.0", None, pm, false, false).expect("plan");
    assert_eq!(plan.command.program, "winget");
    let line = plan.command.render();
    assert!(line.contains("--id Vendor.App"));
    assert!(line.contains("--exact"));
    assert!(line.contains("--version 2.0"));
    assert!(line.contains("--accept-source-agreements"));
    assert!(line.contains("--accept-package-agreements"));
}

#[test]
fn configured_identifier_and_version_end_to_end() {
    let cfg = python_config();
    let plan = build_plan("python", Some(&cfg), PackageManager::Winget, false, false).expect("plan");
    assert_eq!(plan.identifier, "Python.Python.3.12");
    assert_eq!(plan.version.as_deref(), Some("3.12"));
    assert_eq!(plan.replaced_version, None);
    assert!(plan.command.render().contains("--id Python.Python.3.12"));
}

#[test]
fn inline_version_overrides_configured_one() {
    let cfg = python_config();
    let plan = build_plan("PYTHON:3.13", Some(&cfg), PackageManager::Winget, false, true).expect("plan");
    assert_eq!(plan.version.as_deref(), Some("3.13"));
    assert_eq!(plan.replaced_version.as_deref(), Some("3.12"));
    assert_eq!(plan.command.args[1], "--silent");
}

#[test]
fn identifier_resolution_order() {
    let spec = InstallSpec::Detailed {
        version: None,
        identifiers: vec![
            ("default".to_string(), "generic".to_string()),
            ("apt".to_string(), "from-apt".to_string()),
        ],
    };
    assert_eq!(resolve_identifier(&spec, PackageManager::AptGet, "x"), "from-apt");
    assert_eq!(resolve_identifier(&spec, PackageManager::Dnf, "x"), "generic");
    let bare = InstallSpec::Identifier("global-id".to_string());
    assert_eq!(resolve_identifier(&bare, PackageManager::Brew, "x"), "global-id");
    let empty = InstallSpec::Detailed { version: None, identifiers: vec![] };
    assert_eq!(resolve_identifier(&empty, PackageManager::Brew, "x"), "x");
}

#[test]
fn install_target_dry_run_uses_probes() {
    let mut exec = Session::new(RecordingExecutor {
        available: vec!["pacman", "sudo"],
        outcome: SpawnOutcome::NotStarted,
        spawned: vec![],
        shown: vec![],
    });
    let plan = install_target("git", true, true, None, Platform::Linux, None, &mut exec).expect("plan");
    assert_eq!(plan.manager, PackageManager::Pacman);
    assert_eq!(plan.command.render(), "sudo pacman -S --noconfirm git");
    assert!(exec.executor().spawned.is_empty());
    assert_eq!(exec.executor().shown.last().map(String::as_str), Some("Dry run: sudo pacman -S --noconfirm git"));
}

#[test]
fn install_target_surfaces_spawn_failure() {
    let mut exec = Session::new(RecordingExecutor {
        available: vec!["brew"],
        outcome: SpawnOutcome::NotStarted,
        spawned: vec![],
        shown: vec![],
    });
    let err = install_target("jq", false, false, Some("homebrew"), Platform::Linux, None, &mut exec)
        .expect_err("must fail");
    assert_eq!(err.kind(), ErrorKind::SpawnFailed);
    assert_eq!(exec.executor().spawned, vec!["brew install jq".to_string()]);
    let err = install_target(":1", true, false, None, Platform::Linux, None, &mut exec)
        .expect_err("must fail");
    assert_eq!(err.kind(), ErrorKind::InvalidInput);
}

#[test]
fn progress_lines_render_the_command() {
    let cmd = InstallCommand::new("winget".to_string(), vec!["install".to_string(), "A B".to_string()]);
    assert_eq!(progress_line(&cmd, true), "Dry run: winget install \"A B\"");
    assert_eq!(progress_line(&cmd, false), "Executing: winget install \"A B\"");
}

#[test]
fn probes_follow_candidate_order() {
    assert_eq!(next_probe(None, Platform::Linux, &vec![]), Some(PackageManager::AptGet));
    assert_eq!(next_probe(None, Platform::Linux, &vec![false, false]), Some(PackageManager::Pacman));
    assert_eq!(next_probe(None, Platform::Linux, &vec![false, true]), None);
    assert_eq!(next_probe(None, Platform::MacOs, &vec![false]), None);
    assert_eq!(next_probe(Some(" Apt "), Platform::Windows, &vec![]), Some(PackageManager::AptGet));
    assert_eq!(next_probe(Some("apt"), Platform::Windows, &vec![false]), None);
    assert_eq!(next_probe(Some("yum"), Platform::Linux, &vec![]), None);
}

#[test]
fn plan_is_reported_line_by_line() {
    let cfg = python_config();
    let plan = build_plan("python:3.13", Some(&cfg), PackageManager::Winget, false, false).expect("plan");
    assert_eq!(plan.config_key.as_deref(), Some("python"));
    assert_eq!(
        plan_lines(&plan),
        vec![
            "Detected package manager: winget".to_string(),
            "Using configuration entry `python`".to_string(),
            "Resolved identifier: Python.Python.3.12".to_string(),
            "Desired version: 3.13 (overrides configured version 3.12)".to_string(),
        ]
    );
    let plan = build_plan("git", None, PackageManager::Brew, false, false).expect("plan");
    assert_eq!(plan.config_key, None);
    assert_eq!(plan.replaced_version, None);
    assert_eq!(plan_lines(&plan).last().map(String::as_str), Some("Desired version: latest"));
}

#[test]
fn unknown_override_probes_nothing() {
    let mut exec = Session::new(PanickingExecutor { shown: vec![] });
    let err = install_target("git", false, false, Some("yum"), Platform::Linux, None, &mut exec)
        .expect_err("must fail");
    assert_eq!(err.kind(), ErrorKind::UnknownManager);
    assert!(exec.executor().shown.is_empty());
}

#[test]
fn session_hands_back_its_executor() {
    let mut session = Session::new(PanickingExecutor { shown: vec![] });
    session.show("hello");
    let exec = session.into_executor();
    assert_eq!(exec.shown, vec!["hello".to_string()]);
}

#[test]
fn failed_build_runs_nothing() {
    let mut exec = Session::new(RecordingExecutor {
        available: vec!["pacman"],
        outcome: SpawnOutcome::Exited { success: true, code: Some(0) },
        spawned: vec![],
        shown: vec![],
    });
    let err = install_target("git:1.0", false, false, None, Platform::Linux, None, &mut exec)
        .expect_err("pacman cannot pin");
    assert_eq!(err.kind(), ErrorKind::UnsupportedOperation);
    assert!(exec.executor().spawned.is_empty());
    assert!(exec.executor().shown.is_empty());
}

#[test]
fn real_run_spawns_once_and_reports_exit_code() {
    let mut exec = Session::new(RecordingExecutor {
        available: vec!["winget"],
        outcome: SpawnOutcome::Exited { success: false, code: Some(3) },
        spawned: vec![],
        shown: vec![],
    });
    let err = install_target("App", false, false, None, Platform::Windows, None, &mut exec)
        .expect_err("installer fails");
    assert_eq!(err.to_string(), "Installer failed with exit code 3");
    assert_eq!(exec.executor().spawned.len(), 1);
}
