//! Choosing and laying out the command for a configured script.

use vstd::prelude::*;
use vstd::string::StringExecFns;
use crate::text::{push_signed, signed_decimal};

verus! {

/// One script that can be run.
#[derive(Clone, Debug)]
pub struct ScriptConfig {
    pub name: String,
    pub script_type: String,
    pub script_path: String,
    pub python_deps: Vec<String>,
    pub ps_modules: Vec<String>,
    pub working_dir: Option<String>,
    pub args: Vec<String>,
}

/// The interpreters and the scripts that are configured.
#[derive(Clone, Debug)]
pub struct ExecutorConfig {
    pub python_path: String,
    pub python_env: Option<String>,
    pub powershell_path: String,
    pub scripts: Vec<ScriptConfig>,
}

/// Why a script was not run, or did not run well.
#[derive(Clone, Copy, Debug, PartialEq, Eq, Structural)]
pub enum ExecutorError {
    /// No configured script has the wanted name.
    ScriptNotFound,
    /// The script's type is neither `python` nor `powershell`.
    UnknownScriptType,
    /// The script ran and did not end in success.
    ScriptFailed { code: Option<i32> },
    /// The script could not be started.
    NotStarted,
}

/// How the run of a script went.
#[derive(Clone, Copy, Debug, PartialEq, Eq, Structural)]
pub enum RunOutcome {
    /// The process could not be started.
    NotStarted,
    /// The process ran and ended, in success or not, with or without a code.
    Exited { success: bool, code: Option<i32> },
}

/// The interpreter that a script is written for.
#[derive(Clone, Copy, Debug, PartialEq, Eq, Structural)]
pub enum ScriptKind {
    Python,
    PowerShell,
}

/// A program and the arguments it is started with.
#[derive(Debug)]
pub struct CommandLine {
    pub program: String,
    pub args: Vec<String>,
}

/// Where the Python interpreter is taken from.
#[derive(Clone, Copy, Debug, PartialEq, Eq, Structural)]
pub enum PythonSource {
    /// `Scripts/python.exe` below the configured environment.
    EnvScripts,
    /// `bin/python` below the configured environment.
    EnvBin,
    /// The configured interpreter path.
    Configured,
}

/// The Python interpreter that is used when none is configured.
pub fn default_python_path() -> (path: String)
    ensures
        path@ == "python3"@,
{
    "python3".to_owned()
}

/// The PowerShell interpreter that is used when none is configured.
pub fn default_powershell_path() -> (path: String)
    ensures
        path@ == "pwsh"@,
{
    "pwsh".to_owned()
}

/// Whether `i` is the first script of `scripts` with the name `name`.
pub open spec fn first_named(scripts: Seq<ScriptConfig>, name: Seq<char>, i: int) -> bool {
    &&& 0 <= i < scripts.len()
    &&& scripts[i].name@ == name
    &&& forall|j: int| 0 <= j < i ==> (#[trigger] scripts[j]).name@ != name
}

/// Whether no script of `scripts` has the name `name`.
pub open spec fn none_named(scripts: Seq<ScriptConfig>, name: Seq<char>) -> bool {
    forall|j: int| 0 <= j < scripts.len() ==> (#[trigger] scripts[j]).name@ != name
}

/// Picks the script to run: the index of the first configured script with
/// the given name, or an error where there is none.
pub fn run_script(config: &ExecutorConfig, script_name: &str) -> (r: Result<usize, ExecutorError>)
    ensures
        match r {
            Ok(i) => first_named(config.scripts@, script_name@, i as int),
            Err(e) => e == ExecutorError::ScriptNotFound && none_named(
                config.scripts@,
                script_name@,
            ),
        },
{
    let wanted: String = script_name.to_owned();
    let mut i: usize = 0;
    while i < config.scripts.len()
        invariant
            0 <= i <= config.scripts@.len(),
            wanted@ == script_name@,
            forall|j: int| 0 <= j < i ==> (#[trigger] config.scripts@[j]).name@ != script_name@,
        decreases config.scripts@.len() - i,
    {
        if config.scripts[i].name == wanted {
            return Ok(i);
        }
        i += 1;
    }
    Err(ExecutorError::ScriptNotFound)
}

/// Picks the Python interpreter: with an environment configured, its
/// `Scripts/python.exe` where that exists, else its `bin/python` where that
/// exists; in every other case the configured interpreter.
pub fn choose_python(config: &ExecutorConfig, scripts_exists: bool, bin_exists: bool) -> (source:
    PythonSource)
    ensures
        source == (if config.python_env.is_some() && scripts_exists {
            PythonSource::EnvScripts
        } else if config.python_env.is_some() && bin_exists {
            PythonSource::EnvBin
        } else {
            PythonSource::Configured
        }),
{
    match &config.python_env {
        Some(_) => {
            if scripts_exists {
                PythonSource::EnvScripts
            } else if bin_exists {
                PythonSource::EnvBin
            } else {
                PythonSource::Configured
            }
        },
        None => PythonSource::Configured,
    }
}

/// What was found on disk of the configured Python environment: the two
/// places where its interpreter may lie, and whether it lies there.
#[derive(Clone, Debug)]
pub struct PythonProbe {
    /// The path of `Scripts/python.exe` below the environment.
    pub scripts_path: String,
    /// Whether there is a file at that path.
    pub scripts_exists: bool,
    /// The path of `bin/python` below the environment.
    pub bin_path: String,
    /// Whether there is a file at that path.
    pub bin_exists: bool,
}

/// The Python interpreter for a configuration and what was found on disk:
/// with an environment configured, the interpreter below its `Scripts`
/// where that exists, else the one below its `bin` where that exists; in
/// every other case the configured interpreter.
pub open spec fn python_program_spec(config: ExecutorConfig, probe: PythonProbe) -> String {
    if config.python_env.is_some() && probe.scripts_exists {
        probe.scripts_path
    } else if config.python_env.is_some() && probe.bin_exists {
        probe.bin_path
    } else {
        config.python_path
    }
}

/// The program for a source of the interpreter, given the two candidate
/// paths below the environment.
pub fn program_of(config: &ExecutorConfig, source: PythonSource, scripts_path: &String, bin_path: &String) -> (program:
    String)
    ensures
        program == (match source {
            PythonSource::EnvScripts => *scripts_path,
            PythonSource::EnvBin => *bin_path,
            PythonSource::Configured => config.python_path,
        }),
{
    match source {
        PythonSource::EnvScripts => scripts_path.clone(),
        PythonSource::EnvBin => bin_path.clone(),
        PythonSource::Configured => config.python_path.clone(),
    }
}

/// Picks the Python interpreter for a configuration and what was found on
/// disk.
pub fn python_program(config: &ExecutorConfig, probe: &PythonProbe) -> (program: String)
    ensures
        program == python_program_spec(*config, *probe),
{
    let source = choose_python(config, probe.scripts_exists, probe.bin_exists);
    program_of(config, source, &probe.scripts_path, &probe.bin_path)
}

/// The text of the error for a script that is not configured.
pub open spec fn not_found_text(script_name: Seq<char>) -> Seq<char> {
    "Script '"@ + script_name + "' not found"@
}

/// The text of the error for a script of an unknown type: the type as it
/// is configured, in its own case.
pub open spec fn unknown_type_text(script_type: Seq<char>) -> Seq<char> {
    "Unknown script type: "@ + script_type
}

/// An exit code as the error shows it: `Some(..)` around the code, or
/// `None` where the script was ended without one.
pub open spec fn code_text(code: Option<i32>) -> Seq<char> {
    match code {
        Some(c) => "Some("@ + signed_decimal(c as int) + ")"@,
        None => "None"@,
    }
}

/// The text of the error for a script that did not end in success.
pub open spec fn failed_text(script_name: Seq<char>, code: Option<i32>) -> Seq<char> {
    "Script '"@ + script_name + "' failed with exit code: "@ + code_text(code)
}

/// Writes the error for a script that is not configured.
pub fn not_found_message(script_name: &str) -> (text: String)
    ensures
        text@ == not_found_text(script_name@),
{
    let mut text = "Script '".to_owned();
    text.append(script_name);
    text.append("' not found");
    text
}

/// Writes the error for a script of an unknown type.
pub fn unknown_type_message(script_type: &str) -> (text: String)
    ensures
        text@ == unknown_type_text(script_type@),
{
    let mut text = "Unknown script type: ".to_owned();
    text.append(script_type);
    text
}

/// Writes the error for a script that did not end in success.
pub fn failed_message(script_name: &str, code: Option<i32>) -> (text: String)
    ensures
        text@ == failed_text(script_name@, code),
{
    let mut text = "Script '".to_owned();
    text.append(script_name);
    text.append("' failed with exit code: ");
    let ghost head = text@;
    match code {
        Some(c) => {
            text.append("Some(");
            push_signed(&mut text, c as i64);
            text.append(")");
            assert(text@ =~= head + code_text(code));
        },
        None => {
            text.append("None");
        },
    }
    text
}

fn push_all(out: &mut Vec<String>, items: &[String])
    ensures
        final(out)@ == old(out)@ + items@,
{
    let mut i: usize = 0;
    assert(out@ =~= old(out)@ + items@.subrange(0, 0));
    while i < items.len()
        invariant
            0 <= i <= items@.len(),
            out@ == old(out)@ + items@.subrange(0, i as int),
        decreases items@.len() - i,
    {
        out.push(items[i].clone());
        assert(out@ =~= old(out)@ + items@.subrange(0, i + 1));
        i += 1;
    }
    assert(items@.subrange(0, i as int) =~= items@);
}

/// Lays out the command for a Python script: the interpreter that the
/// configuration and the disk give, then the script's path, its configured
/// arguments and the caller's arguments.
pub fn build_python_command(config: &ExecutorConfig, script: &ScriptConfig, args: &[String], probe: &PythonProbe) -> (cmd:
    CommandLine)
    ensures
        cmd.program == python_program_spec(*config, *probe),
        cmd.args@ == seq![script.script_path] + script.args@ + args@,
{
    let mut out: Vec<String> = Vec::new();
    out.push(script.script_path.clone());
    assert(out@ =~= seq![script.script_path]);
    push_all(&mut out, script.args.as_slice());
    push_all(&mut out, args);
    CommandLine { program: python_program(config, probe), args: out }
}

/// Lays out the command for a PowerShell script: the configured
/// interpreter, then `-File`, the script's path, its configured arguments
/// and the caller's arguments.
pub fn build_powershell_command(config: &ExecutorConfig, script: &ScriptConfig, args: &[String]) -> (cmd:
    CommandLine)
    ensures
        cmd.program == config.powershell_path,
        cmd.args@.len() == 2 + script.args@.len() + args@.len(),
        cmd.args@[0]@ == "-File"@,
        cmd.args@.subrange(1, cmd.args@.len() as int) == seq![script.script_path] + script.args@
            + args@,
{
    let mut out: Vec<String> = Vec::new();
    out.push("-File".to_owned());
    out.push(script.script_path.clone());
    push_all(&mut out, script.args.as_slice());
    push_all(&mut out, args);
    assert(out@.subrange(1, out@.len() as int) =~= seq![script.script_path] + script.args@ + args@);
    CommandLine { program: config.powershell_path.clone(), args: out }
}

/// The lower-case form that std gives for a text.
pub uninterp spec fn lowercased(text: Seq<char>) -> Seq<char>;

/// Calls `str::to_lowercase` of std. The result depends on the text alone;
/// it is named, not described.
#[verifier::external_body]
fn lower_case(text: &str) -> (lower: String)
    ensures
        lower@ == lowercased(text@),
{
    text.to_lowercase()
}

/// Calls `Path::parent` of std on the path and gives the parent as text.
/// How a path is split depends on the platform, so nothing is claimed of
/// the result.
#[verifier::external_body]
fn parent_dir(path: &str) -> (parent: Option<String>) {
    match std::path::Path::new(path).parent() {
        Some(p) => Some(p.to_string_lossy().into_owned()),
        None => None,
    }
}

/// The kind that a script type in lower case stands for.
pub open spec fn kind_named(lower: Seq<char>) -> Result<ScriptKind, ExecutorError> {
    if lower == "python"@ {
        Ok(ScriptKind::Python)
    } else if lower == "powershell"@ {
        Ok(ScriptKind::PowerShell)
    } else {
        Err(ExecutorError::UnknownScriptType)
    }
}

/// Tells the kind of a script from its type, given in lower case.
pub fn kind_of_lowered(lower: &String) -> (kind: Result<ScriptKind, ExecutorError>)
    ensures
        kind == kind_named(lower@),
{
    if *lower == "python".to_owned() {
        Ok(ScriptKind::Python)
    } else if *lower == "powershell".to_owned() {
        Ok(ScriptKind::PowerShell)
    } else {
        Err(ExecutorError::UnknownScriptType)
    }
}

/// Tells the kind of a script from its configured type, whatever the case
/// of its letters.
pub fn script_kind(script: &ScriptConfig) -> (kind: Result<ScriptKind, ExecutorError>)
    ensures
        kind == kind_named(lowercased(script.script_type@)),
{
    let lower = lower_case(script.script_type.as_str());
    kind_of_lowered(&lower)
}

/// Picks the directory to run a script in: the configured one, else the
/// parent of the script's path, else the current directory.
pub fn working_dir_from(configured: &Option<String>, parent: Option<String>) -> (dir: String)
    ensures
        dir@ == (match (*configured, parent) {
            (Some(d), _) => d@,
            (None, Some(p)) => p@,
            (None, None) => "."@,
        }),
{
    match configured {
        Some(d) => d.clone(),
        None => match parent {
            Some(p) => p,
            None => ".".to_owned(),
        },
    }
}

/// The directory to run a script in: the configured one where there is
/// one, else the one that holds the script.
pub fn working_dir(script: &ScriptConfig) -> (dir: String)
    ensures
        script.working_dir matches Some(d) ==> dir@ == d@,
{
    let parent = match &script.working_dir {
        Some(_) => None,
        None => parent_dir(script.script_path.as_str()),
    };
    working_dir_from(&script.working_dir, parent)
}

/// Judges how a script ended: anything but success is an error that
/// carries the exit code.
pub fn check_exit(success: bool, code: Option<i32>) -> (r: Result<(), ExecutorError>)
    ensures
        r == (if success {
            Ok::<(), ExecutorError>(())
        } else {
            Err::<(), ExecutorError>(ExecutorError::ScriptFailed { code })
        }),
{
    if success {
        Ok(())
    } else {
        Err(ExecutorError::ScriptFailed { code })
    }
}

/// Judges the run of a script: it is well only where the process started
/// and ended in success.
pub fn check_run(outcome: RunOutcome) -> (r: Result<(), ExecutorError>)
    ensures
        r == (match outcome {
            RunOutcome::NotStarted => Err::<(), ExecutorError>(ExecutorError::NotStarted),
            RunOutcome::Exited { success, code } => if success {
                Ok::<(), ExecutorError>(())
            } else {
                Err::<(), ExecutorError>(ExecutorError::ScriptFailed { code })
            },
        }),
{
    match outcome {
        RunOutcome::NotStarted => Err(ExecutorError::NotStarted),
        RunOutcome::Exited { success, code } => check_exit(success, code),
    }
}

/// A command together with the directory to run it in.
#[derive(Debug)]
pub struct Launch {
    pub command: CommandLine,
    pub working_dir: String,
}

/// Whether `launch` is how `script` is started with the caller's
/// arguments `args`, where `probe` is what was found on disk of the Python
/// environment.
pub open spec fn launches(
    launch: Launch,
    config: ExecutorConfig,
    script: ScriptConfig,
    args: Seq<String>,
    probe: PythonProbe,
) -> bool {
    &&& script.working_dir matches Some(d) ==> launch.working_dir@ == d@
    &&& match kind_named(lowercased(script.script_type@)) {
        Ok(ScriptKind::Python) => {
            &&& launch.command.program == python_program_spec(config, probe)
            &&& launch.command.args@ == seq![script.script_path] + script.args@ + args
        },
        Ok(ScriptKind::PowerShell) => {
            &&& launch.command.program == config.powershell_path
            &&& launch.command.args@.len() == 2 + script.args@.len() + args.len()
            &&& launch.command.args@[0]@ == "-File"@
            &&& launch.command.args@.subrange(1, launch.command.args@.len() as int) == seq![
                script.script_path,
            ] + script.args@ + args
        },
        Err(_) => false,
    }
}

/// Lays out how a script is started: the command for its kind and the
/// directory to run it in. There is an error where the script's type is not
/// known, and no other.
pub fn plan_launch(config: &ExecutorConfig, script: &ScriptConfig, args: &[String], probe: &PythonProbe) -> (r:
    Result<Launch, ExecutorError>)
    ensures
        match r {
            Ok(launch) => launches(launch, *config, *script, args@, *probe),
            Err(e) => e == ExecutorError::UnknownScriptType && kind_named(
                lowercased(script.script_type@),
            ).is_err(),
        },
{
    match script_kind(script) {
        Err(e) => Err(e),
        Ok(kind) => {
            let command = match kind {
                ScriptKind::Python => build_python_command(config, script, args, probe),
                ScriptKind::PowerShell => build_powershell_command(config, script, args),
            };
            Ok(Launch { command, working_dir: working_dir(script) })
        },
    }
}

/// Lays out how the script with the given name is started: the first
/// script of that name, with the command for its kind and the directory to
/// run it in. There is an error where no script has the name, and where the
/// script's type is not known.
pub fn plan_script(config: &ExecutorConfig, script_name: &str, args: &[String], probe: &PythonProbe) -> (r:
    Result<Launch, ExecutorError>)
    ensures
        none_named(config.scripts@, script_name@) <==> r == Err::<Launch, ExecutorError>(
            ExecutorError::ScriptNotFound,
        ),
        forall|i: int| #[trigger]
            first_named(config.scripts@, script_name@, i) ==> match r {
                Ok(launch) => launches(launch, *config, config.scripts@[i], args@, *probe),
                Err(e) => e == ExecutorError::UnknownScriptType && kind_named(
                    lowercased(config.scripts@[i].script_type@),
                ).is_err(),
            },
{
    match run_script(config, script_name) {
        Err(e) => Err(e),
        Ok(i) => {
            let script = &config.scripts[i];
            assert forall|j: int| #[trigger]
                first_named(config.scripts@, script_name@, j) implies j == i by {
                if j < i {
                    assert(config.scripts@[j].name@ != script_name@);
                }
                if i < j {
                    assert(config.scripts@[i as int].name@ != script_name@);
                }
            }
            plan_launch(config, script, args, probe)
        },
    }
}

} // verus!
