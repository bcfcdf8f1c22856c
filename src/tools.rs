//! Named scripts, shell invocation, interpreter lookup and the dev console's
//! command words.
use vstd::prelude::*;
use vstd::string::*;

use crate::command::{views_of, CommandView, InstallCommand};
use crate::config::{key_index, LoadedProjectConfig};
use crate::selection::Platform;
use crate::text::{is_white_space, is_whitespace, lowercase_of, str_eq, to_lowercase, trim, trim_str};

verus! {

/// What `ScriptError` holds, with texts as character sequences.
pub ghost enum ScriptFailure {
    NoConfig,
    ScriptNotFound { name: Seq<char>, path: Seq<char> },
    NoCommands { label: Seq<char> },
}

impl ScriptFailure {
    pub open spec fn message(self) -> Seq<char> {
        match self {
            ScriptFailure::NoConfig => "No qbit.yml/qbit.toml file found in the current directory."@,
            ScriptFailure::ScriptNotFound { name, path } => "Script `"@ + name + "` not found in "@
                + path,
            ScriptFailure::NoCommands { label } => "no commands defined for "@ + label,
        }
    }
}

/// Why a named script cannot run.
#[derive(Debug, Clone)]
pub enum ScriptError {
    NoConfig,
    ScriptNotFound { name: String, path: String },
    NoCommands { label: String },
}

impl View for ScriptError {
    type V = ScriptFailure;

    open spec fn view(&self) -> ScriptFailure {
        match self {
            ScriptError::NoConfig => ScriptFailure::NoConfig,
            ScriptError::ScriptNotFound { name, path } => ScriptFailure::ScriptNotFound {
                name: name@,
                path: path@,
            },
            ScriptError::NoCommands { label } => ScriptFailure::NoCommands { label: label@ },
        }
    }
}

impl ScriptError {
    /// The message for this failure.
    pub fn to_string(&self) -> (r: String)
        ensures
            r@ == self@.message(),
    {
        match self {
            ScriptError::NoConfig => String::from_str(
                "No qbit.yml/qbit.toml file found in the current directory.",
            ),
            ScriptError::ScriptNotFound { name, path } => {
                let mut m = String::from_str("Script `");
                m.append(name.as_str());
                m.append("` not found in ");
                m.append(path.as_str());
                m
            },
            ScriptError::NoCommands { label } => {
                let mut m = String::from_str("no commands defined for ");
                m.append(label.as_str());
                m
            },
        }
    }
}

/// The label under which the steps of script `name` are reported.
pub open spec fn script_label(name: Seq<char>) -> Seq<char> {
    "script:"@ + name
}

/// Accepts a list of commands to run under `label`; an empty list is an
/// error.
pub fn check_commands(label: &str, commands: &Vec<String>) -> (r: Result<(), ScriptError>)
    ensures
        commands@.len() == 0 ==> (r matches Err(e) && e@ == (ScriptFailure::NoCommands {
            label: label@,
        })),
        commands@.len() > 0 ==> r is Ok,
{
    if commands.len() == 0 {
        return Err(ScriptError::NoCommands { label: String::from_str(label) });
    }
    Ok(())
}

/// The commands of the script `name` in `config`, in order.
pub fn run_named_script(config: Option<&LoadedProjectConfig>, name: &str) -> (r: Result<
    Vec<String>,
    ScriptError,
>)
    ensures
        match config {
            None => r matches Err(e) && e@ == ScriptFailure::NoConfig,
            Some(c) => match key_index(c.data.scripts@, name@) {
                None => r matches Err(e) && e@ == (ScriptFailure::ScriptNotFound {
                    name: name@,
                    path: c.path@,
                }),
                Some(i) => {
                    let cmds = c.data.scripts@[i].1.spec_commands();
                    if cmds.len() == 0 {
                        r matches Err(e) && e@ == (ScriptFailure::NoCommands {
                            label: script_label(name@),
                        })
                    } else {
                        r matches Ok(v) && v@.map_values(|s: String| s@) == cmds
                    }
                },
            },
        },
{
    let cfg = match config {
        None => return Err(ScriptError::NoConfig),
        Some(c) => c,
    };
    let entry = match cfg.script(name) {
        None => {
            return Err(
                ScriptError::ScriptNotFound {
                    name: String::from_str(name),
                    path: cfg.path.clone(),
                },
            )
        },
        Some(e) => e,
    };
    let commands = entry.commands();
    let mut label = String::from_str("script:");
    label.append(name);
    check_commands(label.as_str(), &commands)?;
    Ok(commands)
}

/// The shell invocation that runs `command` on `platform`: `cmd /C` on
/// Windows, `sh -c` elsewhere.
pub fn shell_command(platform: Platform, command: &str) -> (r: InstallCommand)
    ensures
        platform == Platform::Windows ==> r@ == (CommandView {
            program: "cmd"@,
            args: seq!["/C"@, command@],
        }),
        platform != Platform::Windows ==> r@ == (CommandView {
            program: "sh"@,
            args: seq!["-c"@, command@],
        }),
{
    let (program, flag) = if platform == Platform::Windows {
        ("cmd", "/C")
    } else {
        ("sh", "-c")
    };
    let args = vec![String::from_str(flag), String::from_str(command)];
    proof {
        assert(views_of(args@) =~= seq![flag@, command@]);
    }
    proof {
        reveal_strlit("cmd");
        reveal_strlit("sh");
    }
    InstallCommand::new(String::from_str(program), args)
}

/// The words of `s` so far, and whether its last character belongs to a
/// word.
pub open spec fn word_state(s: Seq<char>) -> (Seq<Seq<char>>, bool)
    decreases s.len(),
{
    if s.len() == 0 {
        (Seq::empty(), false)
    } else {
        let (words, inside) = word_state(s.drop_last());
        let c = s.last();
        if is_white_space(c) {
            (words, false)
        } else if inside {
            (words.update(words.len() - 1, words.last().push(c)), true)
        } else {
            (words.push(seq![c]), true)
        }
    }
}

/// The maximal runs of non-white-space characters of `s`, as
/// `str::split_whitespace` gives them.
pub open spec fn words(s: Seq<char>) -> Seq<Seq<char>> {
    word_state(s).0
}

proof fn lemma_word_state_inside(s: Seq<char>)
    ensures
        word_state(s).1 ==> word_state(s).0.len() > 0,
    decreases s.len(),
{
    if s.len() > 0 {
        lemma_word_state_inside(s.drop_last());
    }
}

/// The words of `s`.
pub fn split_whitespace(s: &str) -> (r: Vec<String>)
    ensures
        r@.map_values(|w: String| w@) == words(s@),
{
    let n = s.unicode_len();
    let mut out: Vec<String> = Vec::new();
    let mut inside = false;
    let mut i: usize = 0;
    proof {
        assert(s@.subrange(0, 0) =~= Seq::<char>::empty());
    }
    while i < n
        invariant
            n == s@.len(),
            i <= n,
            out@.map_values(|w: String| w@) == word_state(s@.subrange(0, i as int)).0,
            inside == word_state(s@.subrange(0, i as int)).1,
        decreases n - i,
    {
        let c = s.get_char(i);
        let ghost prefix = s@.subrange(0, i + 1);
        let ghost before = out@;
        proof {
            assert(prefix.drop_last() =~= s@.subrange(0, i as int));
            assert(prefix.last() == c);
            lemma_word_state_inside(s@.subrange(0, i as int));
        }
        if is_whitespace(c) {
            inside = false;
        } else if inside {
            let last = out.len() - 1;
            let mut word = out[last].clone();
            word.append(s.substring_char(i, i + 1));
            out.set(last, word);
            proof {
                assert(s@.subrange(i as int, i + 1) =~= seq![c]);
                assert(word@ =~= before[last as int]@.push(c));
                assert(out@ == before.update(last as int, word));
                assert(out@.map_values(|w: String| w@) =~= before.map_values(|w: String| w@).update(
                    last as int,
                    before.map_values(|w: String| w@).last().push(c),
                ));
            }
        } else {
            let word = String::from_str(s.substring_char(i, i + 1));
            out.push(word);
            inside = true;
            proof {
                assert(s@.subrange(i as int, i + 1) =~= seq![c]);
                assert(out@.map_values(|w: String| w@) =~= before.map_values(|w: String| w@).push(
                    seq![c],
                ));
            }
        }
        i = i + 1;
    }
    proof {
        assert(s@.subrange(0, n as int) =~= s@);
    }
    out
}

/// Splits an interpreter command such as `py -3` into its program and its
/// leading arguments; the program is the whole text when it has no word.
pub fn split_first(cmd: &str) -> (r: (String, Vec<String>))
    ensures
        words(cmd@).len() > 0 ==> r.0@ == words(cmd@)[0] && r.1@.map_values(|w: String| w@)
            == words(cmd@).drop_first(),
        words(cmd@).len() == 0 ==> r.0@ == cmd@ && r.1@.len() == 0,
{
    let mut parts = split_whitespace(cmd);
    if parts.len() == 0 {
        return (String::from_str(cmd), Vec::new());
    }
    let ghost all = parts@;
    let bin = parts.remove(0);
    proof {
        assert(parts@.map_values(|w: String| w@) =~= all.map_values(|w: String| w@).drop_first());
    }
    (bin, parts)
}

/// The interpreter commands tried, in order, when looking for Python.
pub fn python_candidates(platform: Platform) -> (r: Vec<&'static str>)
    ensures
        platform == Platform::Windows ==> r@.map_values(|c: &str| c@) == seq![
            "py -3"@,
            "py"@,
            "python"@,
            "python3"@,
        ],
        platform != Platform::Windows ==> r@.map_values(|c: &str| c@) == seq![
            "python3"@,
            "python"@,
        ],
{
    let r = if platform == Platform::Windows {
        vec!["py -3", "py", "python", "python3"]
    } else {
        vec!["python3", "python"]
    };
    proof {
        if platform == Platform::Windows {
            assert(r@.map_values(|c: &str| c@) =~= seq!["py -3"@, "py"@, "python"@, "python3"@]);
        } else {
            assert(r@.map_values(|c: &str| c@) =~= seq!["python3"@, "python"@]);
        }
    }
    r
}

/// The path components of the virtual environment's interpreter.
pub fn venv_python_path(platform: Platform) -> (r: Vec<&'static str>)
    ensures
        platform == Platform::Windows ==> r@.map_values(|c: &str| c@) == seq![
            "venv"@,
            "Scripts"@,
            "python.exe"@,
        ],
        platform != Platform::Windows ==> r@.map_values(|c: &str| c@) == seq![
            "venv"@,
            "bin"@,
            "python"@,
        ],
{
    let r = if platform == Platform::Windows {
        vec!["venv", "Scripts", "python.exe"]
    } else {
        vec!["venv", "bin", "python"]
    };
    proof {
        if platform == Platform::Windows {
            assert(r@.map_values(|c: &str| c@) =~= seq!["venv"@, "Scripts"@, "python.exe"@]);
        } else {
            assert(r@.map_values(|c: &str| c@) =~= seq!["venv"@, "bin"@, "python"@]);
        }
    }
    r
}

/// The JavaScript package managers tried, in order, when none is set.
pub fn js_package_manager_candidates() -> (r: Vec<&'static str>)
    ensures
        r@.map_values(|c: &str| c@) == seq!["npm"@, "pnpm"@, "yarn"@, "bun"@],
{
    let r = vec!["npm", "pnpm", "yarn", "bun"];
    proof {
        assert(r@.map_values(|c: &str| c@) =~= seq!["npm"@, "pnpm"@, "yarn"@, "bun"@]);
    }
    r
}

/// The arguments handed to the JavaScript package manager to run `script`.
pub fn run_script(script: &str) -> (r: Vec<String>)
    ensures
        r@.map_values(|a: String| a@) == seq!["run"@, script@],
{
    let r = vec![String::from_str("run"), String::from_str(script)];
    proof {
        assert(r@.map_values(|a: String| a@) =~= seq!["run"@, script@]);
    }
    r
}


/// `raw` trimmed, without leading or trailing `:`.
pub open spec fn strip_colons(s: Seq<char>) -> Seq<char>
    decreases s.len(),
{
    if s.len() > 0 && s[0] == ':' {
        strip_colons(s.drop_first())
    } else if s.len() > 0 && s.last() == ':' {
        strip_colons(s.drop_last())
    } else {
        s
    }
}

fn trim_colons(s: &str) -> (r: &str)
    ensures
        r@ == strip_colons(s@),
    decreases s@.len(),
{
    let n = s.unicode_len();
    if n > 0 && s.get_char(0) == ':' {
        let rest = s.substring_char(1, n);
        proof {
            assert(rest@ =~= s@.drop_first());
        }
        trim_colons(rest)
    } else if n > 0 && s.get_char(n - 1) == ':' {
        let rest = s.substring_char(0, n - 1);
        proof {
            assert(rest@ =~= s@.drop_last());
        }
        trim_colons(rest)
    } else {
        s
    }
}

/// A line typed into the dev console, as it is acted on.
#[derive(Debug, Clone, Copy, PartialEq, Eq, Structural)]
pub enum DevCommand {
    Exit,
    Reset,
    Help,
    WatchStatus,
    WatchOn,
    WatchOff,
    Run,
}

/// The dev-console command that a normalized line stands for.
pub open spec fn dev_command_of(normalized: Seq<char>) -> DevCommand {
    if normalized == "exit"@ || normalized == "quit"@ || normalized == "q"@ {
        DevCommand::Exit
    } else if normalized == "reset"@ {
        DevCommand::Reset
    } else if normalized == "help"@ {
        DevCommand::Help
    } else if normalized == "watch"@ {
        DevCommand::WatchStatus
    } else if normalized == "watch on"@ || normalized == "watch:on"@ {
        DevCommand::WatchOn
    } else if normalized == "watch off"@ || normalized == "watch:off"@ {
        DevCommand::WatchOff
    } else {
        DevCommand::Run
    }
}

/// A line trimmed, stripped of surrounding `:` and lower-cased.
pub fn normalize_for_internal(raw: &str) -> (r: String)
    ensures
        r@ == lowercase_of(strip_colons(trim(raw@))),
{
    to_lowercase(trim_colons(trim_str(raw)))
}

/// The command of an already normalized line: see `dev_command_of`.
pub fn dev_command_for(normalized: &str) -> (r: DevCommand)
    ensures
        r == dev_command_of(normalized@),
{
    if str_eq(normalized, "exit") || str_eq(normalized, "quit") || str_eq(normalized, "q") {
        DevCommand::Exit
    } else if str_eq(normalized, "reset") {
        DevCommand::Reset
    } else if str_eq(normalized, "help") {
        DevCommand::Help
    } else if str_eq(normalized, "watch") {
        DevCommand::WatchStatus
    } else if str_eq(normalized, "watch on") || str_eq(normalized, "watch:on") {
        DevCommand::WatchOn
    } else if str_eq(normalized, "watch off") || str_eq(normalized, "watch:off") {
        DevCommand::WatchOff
    } else {
        DevCommand::Run
    }
}

/// The command that a typed line stands for.
pub fn classify_dev_input(raw: &str) -> (r: DevCommand)
    ensures
        r == dev_command_of(lowercase_of(strip_colons(trim(raw@)))),
{
    let normalized = normalize_for_internal(raw);
    dev_command_for(normalized.as_str())
}

} // verus!
