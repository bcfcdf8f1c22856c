use qbit_cli::config::{CommandList, LoadedProjectConfig, ProjectConfig};
use qbit_cli::selection::Platform;
use qbit_cli::tools::{
    check_commands, classify_dev_input, normalize_for_internal, python_candidates, run_named_script,
    run_script, shell_command, split_first, venv_python_path, DevCommand,
};

#[test]
fn shell_command_uses_platform_shell() {
    let cmd = shell_command(Platform::Linux, "echo hi");
    assert_eq!(cmd.program, "sh");
    assert!(cmd.args.iter().any(|arg| arg == "-c"));
    assert!(cmd.args.iter().any(|arg| arg == "echo hi"));

    let cmd = shell_command(Platform::Windows, "echo hi");
    let lower = cmd.program.to_ascii_lowercase();
    assert!(lower == "cmd" || lower.ends_with("cmd.exe"));
    assert!(cmd.args.iter().any(|arg| arg.eq_ignore_ascii_case("/C")));
    assert!(cmd.args.iter().any(|arg| arg == "echo hi"));
}

#[test]
fn run_commands_rejects_empty_command_list() {
    let err = check_commands("demo", &vec![]).expect_err("must fail");
    assert!(err.to_string().contains("no commands defined"));
}

#[test]
fn named_scripts_are_looked_up_exactly() {
    let cfg = LoadedProjectConfig {
        path: "qbit.yml".to_string(),
        data: ProjectConfig {
            scripts: vec![
                ("hello".to_string(), CommandList::Single("echo hello-qbit".to_string())),
                (
                    "lint".to_string(),
                    CommandList::Multiple(vec!["a".to_string(), "b".to_string()]),
                ),
                ("none".to_string(), CommandList::Multiple(vec![])),
            ],
            install: vec![],
        },
    };
    assert_eq!(run_named_script(Some(&cfg), "hello").expect("script"), vec!["echo hello-qbit".to_string()]);
    assert_eq!(run_named_script(Some(&cfg), "lint").expect("script"), vec!["a".to_string(), "b".to_string()]);
    let err = run_named_script(Some(&cfg), "missing_script").expect_err("must fail");
    assert_eq!(err.to_string(), "Script `missing_script` not found in qbit.yml");
    let err = run_named_script(Some(&cfg), "none").expect_err("must fail");
    assert_eq!(err.to_string(), "no commands defined for script:none");
    assert!(run_named_script(None, "hello").is_err());
}

#[test]
fn interpreter_commands_split_into_words() {
    let (bin, rest) = split_first("  py   -3 ");
    assert_eq!(bin, "py");
    assert_eq!(rest, vec!["-3".to_string()]);
    let (bin, rest) = split_first("python3");
    assert_eq!(bin, "python3");
    assert!(rest.is_empty());
    assert_eq!(python_candidates(Platform::Linux), vec!["python3", "python"]);
    assert_eq!(venv_python_path(Platform::Windows), vec!["venv", "Scripts", "python.exe"]);
    assert_eq!(run_script("build"), vec!["run".to_string(), "build".to_string()]);
}

#[test]
fn dev_console_words() {
    assert_eq!(normalize_for_internal("  :Watch On: "), "watch on");
    assert_eq!(classify_dev_input(":EXIT"), DevCommand::Exit);
    assert_eq!(classify_dev_input("watch:off"), DevCommand::WatchOff);
    assert_eq!(classify_dev_input("reset"), DevCommand::Reset);
    assert_eq!(classify_dev_input("install git"), DevCommand::Run);
}
