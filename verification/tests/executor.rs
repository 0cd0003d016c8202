use rarscanner::executor::{
    build_powershell_command, build_python_command, check_exit, check_run, choose_python,
    default_powershell_path, default_python_path, failed_message, kind_of_lowered,
    not_found_message, plan_script, program_of, python_program, run_script, script_kind,
    unknown_type_message, working_dir, working_dir_from, ExecutorConfig, ExecutorError,
    PythonProbe, PythonSource, RunOutcome, ScriptConfig, ScriptKind,
};

fn script(name: &str, path: &str, args: &[&str]) -> ScriptConfig {
    ScriptConfig {
        name: name.to_string(),
        script_type: "python".to_string(),
        script_path: path.to_string(),
        python_deps: Vec::new(),
        ps_modules: Vec::new(),
        working_dir: None,
        args: args.iter().map(|a| a.to_string()).collect(),
    }
}

fn config(env: Option<&str>, scripts: Vec<ScriptConfig>) -> ExecutorConfig {
    ExecutorConfig {
        python_path: default_python_path(),
        python_env: env.map(|e| e.to_string()),
        powershell_path: default_powershell_path(),
        scripts,
    }
}

#[test]
fn default_interpreters() {
    assert_eq!(default_python_path(), "python3");
    assert_eq!(default_powershell_path(), "pwsh");
}

#[test]
fn the_first_script_of_a_name_is_run() {
    let c = config(None, vec![script("a", "a.py", &[]), script("b", "b1.py", &[]), script("b", "b2.py", &[])]);
    assert_eq!(run_script(&c, "a"), Ok(0));
    assert_eq!(run_script(&c, "b"), Ok(1));
}

#[test]
fn an_unknown_script_is_an_error() {
    let c = config(None, vec![script("a", "a.py", &[])]);
    assert_eq!(run_script(&c, "A"), Err(ExecutorError::ScriptNotFound));
    assert_eq!(run_script(&c, ""), Err(ExecutorError::ScriptNotFound));
    assert_eq!(run_script(&config(None, Vec::new()), "a"), Err(ExecutorError::ScriptNotFound));
}

#[test]
fn the_environment_comes_before_the_configured_python() {
    let with_env = config(Some("venv"), Vec::new());
    assert_eq!(choose_python(&with_env, true, true), PythonSource::EnvScripts);
    assert_eq!(choose_python(&with_env, true, false), PythonSource::EnvScripts);
    assert_eq!(choose_python(&with_env, false, true), PythonSource::EnvBin);
    assert_eq!(choose_python(&with_env, false, false), PythonSource::Configured);
    let without = config(None, Vec::new());
    assert_eq!(choose_python(&without, true, true), PythonSource::Configured);
}

#[test]
fn python_command_lists_script_then_arguments() {
    let s = script("a", "a.py", &["-v", "x"]);
    let c = config(Some("venv"), Vec::new());
    let cmd = build_python_command(&c, &s, &["1".to_string(), "2".to_string()], &probe(true, false));
    assert_eq!(cmd.program, "venv/Scripts/python.exe");
    assert_eq!(cmd.args, vec!["a.py", "-v", "x", "1", "2"]);
    let plain = config(None, Vec::new());
    let bare = build_python_command(&plain, &script("b", "b.py", &[]), &[], &probe(true, true));
    assert_eq!(bare.program, "python3");
    assert_eq!(bare.args, vec!["b.py"]);
}

#[test]
fn powershell_command_starts_with_the_file_flag() {
    let c = config(None, Vec::new());
    let s = script("a", "a.ps1", &["-x"]);
    let cmd = build_powershell_command(&c, &s, &["1".to_string()]);
    assert_eq!(cmd.program, "pwsh");
    assert_eq!(cmd.args, vec!["-File", "a.ps1", "-x", "1"]);
}

fn typed(script_type: &str) -> ScriptConfig {
    let mut s = script("t", "dir/t.py", &[]);
    s.script_type = script_type.to_string();
    s
}

#[test]
fn script_type_is_read_without_regard_to_case() {
    assert_eq!(script_kind(&typed("python")), Ok(ScriptKind::Python));
    assert_eq!(script_kind(&typed("Python")), Ok(ScriptKind::Python));
    assert_eq!(script_kind(&typed("PYTHON")), Ok(ScriptKind::Python));
    assert_eq!(script_kind(&typed("PowerShell")), Ok(ScriptKind::PowerShell));
    assert_eq!(script_kind(&typed("powershell")), Ok(ScriptKind::PowerShell));
}

#[test]
fn other_script_types_are_unknown() {
    assert_eq!(script_kind(&typed("bash")), Err(ExecutorError::UnknownScriptType));
    assert_eq!(script_kind(&typed("")), Err(ExecutorError::UnknownScriptType));
    assert_eq!(script_kind(&typed("python3")), Err(ExecutorError::UnknownScriptType));
    assert_eq!(script_kind(&typed(" python")), Err(ExecutorError::UnknownScriptType));
}

#[test]
fn lowered_type_must_match_exactly() {
    assert_eq!(kind_of_lowered(&"python".to_string()), Ok(ScriptKind::Python));
    assert_eq!(kind_of_lowered(&"powershell".to_string()), Ok(ScriptKind::PowerShell));
    assert_eq!(kind_of_lowered(&"Python".to_string()), Err(ExecutorError::UnknownScriptType));
}

#[test]
fn working_directory_prefers_the_configured_one() {
    let mut s = script("a", "scripts/a.py", &[]);
    assert_eq!(working_dir(&s), "scripts");
    s.working_dir = Some("/srv/work".to_string());
    assert_eq!(working_dir(&s), "/srv/work");
    assert_eq!(working_dir_from(&None, None), ".");
    assert_eq!(working_dir_from(&None, Some("p".to_string())), "p");
    assert_eq!(working_dir_from(&Some("c".to_string()), Some("p".to_string())), "c");
    assert_eq!(working_dir_from(&Some("c".to_string()), None), "c");
}

#[test]
fn a_script_at_the_root_runs_in_the_current_directory() {
    assert_eq!(working_dir(&script("a", "/", &[])), ".");
    assert_eq!(working_dir(&script("a", "", &[])), ".");
}

#[test]
fn failure_carries_the_exit_code() {
    assert_eq!(check_exit(true, Some(0)), Ok(()));
    assert_eq!(check_exit(true, None), Ok(()));
    assert_eq!(check_exit(false, Some(3)), Err(ExecutorError::ScriptFailed { code: Some(3) }));
    assert_eq!(check_exit(false, None), Err(ExecutorError::ScriptFailed { code: None }));
}

#[test]
fn a_python_script_is_planned_with_its_interpreter() {
    let mut s = script("job", "jobs/job.py", &["--fast"]);
    s.script_type = "Python".to_string();
    let c = config(None, vec![script("other", "o.py", &[]), s]);
    let launch = plan_script(&c, "job", &["x".to_string()], &probe(false, true)).expect("a launch");
    assert_eq!(launch.command.program, "python3");
    let mut with_env = c.clone();
    with_env.python_env = Some("venv".to_string());
    let launch =
        plan_script(&with_env, "job", &["x".to_string()], &probe(false, true)).expect("a launch");
    assert_eq!(launch.command.program, "venv/bin/python");
    assert_eq!(launch.command.args, vec!["jobs/job.py", "--fast", "x"]);
    assert_eq!(launch.working_dir, "jobs");
}

#[test]
fn a_powershell_script_is_planned_with_the_file_flag() {
    let mut s = script("job", "jobs/job.ps1", &[]);
    s.script_type = "POWERSHELL".to_string();
    s.working_dir = Some("/tmp/w".to_string());
    let c = config(None, vec![s]);
    let launch = plan_script(&c, "job", &[], &probe(true, true)).expect("a launch");
    assert_eq!(launch.command.program, "pwsh");
    assert_eq!(launch.command.args, vec!["-File", "jobs/job.ps1"]);
    assert_eq!(launch.working_dir, "/tmp/w");
}

#[test]
fn planning_fails_for_unknown_names_and_types() {
    let c = config(None, vec![typed("ruby")]);
    assert_eq!(
        plan_script(&c, "missing", &[], &probe(false, false)).err(),
        Some(ExecutorError::ScriptNotFound)
    );
    assert_eq!(
        plan_script(&c, "t", &[], &probe(false, false)).err(),
        Some(ExecutorError::UnknownScriptType)
    );
}

fn probe(scripts_exists: bool, bin_exists: bool) -> PythonProbe {
    PythonProbe {
        scripts_path: "venv/Scripts/python.exe".to_string(),
        scripts_exists,
        bin_path: "venv/bin/python".to_string(),
        bin_exists,
    }
}

#[test]
fn interpreter_follows_configuration_and_disk() {
    let with_env = config(Some("venv"), Vec::new());
    assert_eq!(python_program(&with_env, &probe(true, true)), "venv/Scripts/python.exe");
    assert_eq!(python_program(&with_env, &probe(true, false)), "venv/Scripts/python.exe");
    assert_eq!(python_program(&with_env, &probe(false, true)), "venv/bin/python");
    assert_eq!(python_program(&with_env, &probe(false, false)), "python3");
    let without = config(None, Vec::new());
    assert_eq!(python_program(&without, &probe(true, true)), "python3");
    let s = "s".to_string();
    let b = "b".to_string();
    assert_eq!(program_of(&without, PythonSource::EnvScripts, &s, &b), "s");
    assert_eq!(program_of(&without, PythonSource::EnvBin, &s, &b), "b");
    assert_eq!(program_of(&without, PythonSource::Configured, &s, &b), "python3");
}

#[test]
fn error_texts() {
    assert_eq!(not_found_message("build"), "Script 'build' not found");
    assert_eq!(not_found_message(""), "Script '' not found");
    assert_eq!(unknown_type_message("Ruby"), "Unknown script type: Ruby");
    assert_eq!(failed_message("job", Some(3)), "Script 'job' failed with exit code: Some(3)");
    assert_eq!(failed_message("job", Some(0)), "Script 'job' failed with exit code: Some(0)");
    assert_eq!(failed_message("job", Some(-1)), "Script 'job' failed with exit code: Some(-1)");
    assert_eq!(failed_message("job", Some(120)), "Script 'job' failed with exit code: Some(120)");
    assert_eq!(
        failed_message("job", Some(i32::MIN)),
        format!("Script 'job' failed with exit code: {:?}", Some(i32::MIN))
    );
    assert_eq!(
        failed_message("job", Some(i32::MAX)),
        format!("Script 'job' failed with exit code: {:?}", Some(i32::MAX))
    );
    assert_eq!(failed_message("job", None), "Script 'job' failed with exit code: None");
}

#[test]
fn a_run_is_well_only_after_a_successful_exit() {
    assert_eq!(check_run(RunOutcome::Exited { success: true, code: Some(0) }), Ok(()));
    assert_eq!(
        check_run(RunOutcome::Exited { success: false, code: Some(2) }),
        Err(ExecutorError::ScriptFailed { code: Some(2) })
    );
    assert_eq!(
        check_run(RunOutcome::Exited { success: false, code: None }),
        Err(ExecutorError::ScriptFailed { code: None })
    );
    assert_eq!(check_run(RunOutcome::NotStarted), Err(ExecutorError::NotStarted));
}
