//! Agent cores (their prompts and modes of interaction) and the workspace shell.

use vstd::prelude::*;
use vstd::string::*;

use crate::session::CoreKind;
use crate::text::{ascii_lower, str_eq, to_ascii_lowercase, trim, trim_spec};

verus! {

// ---------------------------------------------------------------------------
// The workspace shell
// ---------------------------------------------------------------------------

/// The shell that runs the agent's commands.
#[derive(Clone, Copy, Debug, PartialEq, Eq, Structural)]
pub enum ShellKind {
    Bash,
    PowerShell,
    Cmd,
}

pub open spec fn shell_name(s: ShellKind) -> Seq<char> {
    match s {
        ShellKind::Bash => "Bash"@,
        ShellKind::PowerShell => "PowerShell"@,
        ShellKind::Cmd => "cmd.exe"@,
    }
}

/// The shell of a system by default: PowerShell on Windows, Bash elsewhere.
pub open spec fn default_shell(is_windows: bool) -> ShellKind {
    if is_windows {
        ShellKind::PowerShell
    } else {
        ShellKind::Bash
    }
}

/// The shell a `CRUST_SHELL` setting selects, matched without regard to ASCII case and
/// surrounding whitespace: empty or `auto` for the system's default, `bash`, `powershell`
/// or `pwsh`, and `cmd`.
pub open spec fn shell_from_config(value: Seq<char>, is_windows: bool) -> Result<ShellKind, Seq<char>> {
    let v = ascii_lower(trim_spec(value));
    if v == ""@ || v == "auto"@ {
        Ok(default_shell(is_windows))
    } else if v == "bash"@ {
        Ok(ShellKind::Bash)
    } else if v == "powershell"@ || v == "pwsh"@ {
        Ok(ShellKind::PowerShell)
    } else if v == "cmd"@ {
        Ok(ShellKind::Cmd)
    } else {
        Err("Unsupported CRUST_SHELL value `"@ + v + "`. Use auto, bash, powershell, or cmd."@)
    }
}

impl ShellKind {
    /// Reads a `CRUST_SHELL` setting.
    pub fn from_config(value: &str, is_windows: bool) -> (r: Result<ShellKind, String>)
        ensures
            match r {
                Ok(k) => shell_from_config(value@, is_windows) == Ok::<ShellKind, Seq<char>>(k),
                Err(e) => shell_from_config(value@, is_windows) == Err::<ShellKind, Seq<char>>(e@),
            },
    {
        let t = trim(value);
        let v = to_ascii_lowercase(t.as_str());
        let s = v.as_str();
        proof {
            reveal_strlit("");
        }
        if str_eq(s, "") || str_eq(s, "auto") {
            Ok(ShellKind::default_for_os(is_windows))
        } else if str_eq(s, "bash") {
            Ok(ShellKind::Bash)
        } else if str_eq(s, "powershell") || str_eq(s, "pwsh") {
            Ok(ShellKind::PowerShell)
        } else if str_eq(s, "cmd") {
            Ok(ShellKind::Cmd)
        } else {
            let mut e = "Unsupported CRUST_SHELL value `".to_owned();
            e.append(s);
            e.append("`. Use auto, bash, powershell, or cmd.");
            Err(e)
        }
    }

    /// The default shell of a system.
    pub fn default_for_os(is_windows: bool) -> (r: ShellKind)
        ensures
            r == default_shell(is_windows),
    {
        if is_windows {
            ShellKind::PowerShell
        } else {
            ShellKind::Bash
        }
    }

    /// The name the prompts give the shell.
    pub fn display_name(self) -> (r: &'static str)
        ensures
            r@ == shell_name(self),
    {
        match self {
            ShellKind::Bash => "Bash",
            ShellKind::PowerShell => "PowerShell",
            ShellKind::Cmd => "cmd.exe",
        }
    }

    /// The program that runs `command` in this shell, and its arguments: `bash -lc`,
    /// `powershell.exe -NoProfile -Command` or `cmd.exe /C`, then the command.
    pub fn invocation(self, command: &str) -> (r: (String, Vec<String>))
        ensures
            r.0@ == shell_program(self),
            r.1@.len() == shell_flags(self).len() + 1,
            forall|i: int| 0 <= i < shell_flags(self).len() ==> #[trigger] r.1@[i]@ == shell_flags(self)[i],
            r.1@.last()@ == command@,
    {
        let mut args: Vec<String> = Vec::new();
        let program = match self {
            ShellKind::Bash => {
                args.push("-lc".to_owned());
                "bash".to_owned()
            },
            ShellKind::PowerShell => {
                args.push("-NoProfile".to_owned());
                args.push("-Command".to_owned());
                "powershell.exe".to_owned()
            },
            ShellKind::Cmd => {
                args.push("/C".to_owned());
                "cmd.exe".to_owned()
            },
        };
        args.push(command.to_owned());
        (program, args)
    }
}

/// The program a shell's commands are run with.
pub open spec fn shell_program(s: ShellKind) -> Seq<char> {
    match s {
        ShellKind::Bash => "bash"@,
        ShellKind::PowerShell => "powershell.exe"@,
        ShellKind::Cmd => "cmd.exe"@,
    }
}

/// The arguments that come before the command.
pub open spec fn shell_flags(s: ShellKind) -> Seq<Seq<char>> {
    match s {
        ShellKind::Bash => seq!["-lc"@],
        ShellKind::PowerShell => seq!["-NoProfile"@, "-Command"@],
        ShellKind::Cmd => seq!["/C"@],
    }
}

// ---------------------------------------------------------------------------
// Cores
// ---------------------------------------------------------------------------

/// Whether the agent runs its tools itself or proposes them for approval.
#[derive(Clone, Copy, Debug, PartialEq, Eq, Structural)]
pub enum InteractionMode {
    Autonomous,
    SuggestAndConfirm,
}

/// How an agent core presents itself and behaves.
pub struct CoreProfile {
    pub kind: CoreKind,
    pub display_name: &'static str,
    pub description: &'static str,
    pub system_prompt: String,
    pub interaction_mode: InteractionMode,
    pub default_model: Option<String>,
}

/// The system prompt of a core, for a workspace whose commands run in `shell`.
pub open spec fn core_prompt(kind: CoreKind, shell: Seq<char>) -> Seq<char> {
    match kind {
        CoreKind::General => "You are an AI agent given tools to help people. Use the shell tool to run "@
            + shell
            + " commands in the workspace, the read/write/edit tools for files when you know filenames, and the web search tool to interface with the web."@,
        CoreKind::Learning => "You are a learning-focused coding agent. Help the user solve the task while teaching the reasoning behind important choices. Use the shell tool to run "@
            + shell
            + " commands in the workspace, the read/write/edit tools for files when you know filenames, and the web search tool when useful. Prefer concise explanations tied to the current code over generic tutorials."@,
        CoreKind::PairProgramming => "You are a pair programming coding agent. Work collaboratively, explain proposed changes before risky actions, and keep the user in control. Use the shell tool to run "@
            + shell
            + " commands in the workspace, the read/write/edit tools for files when you know filenames, and the web search tool when useful. In suggest-and-confirm mode, tool calls are proposed for human approval before execution."@,
    }
}

/// The display name of a core.
pub open spec fn core_display_name(kind: CoreKind) -> Seq<char> {
    match kind {
        CoreKind::General => "General"@,
        CoreKind::Learning => "Learning"@,
        CoreKind::PairProgramming => "Pair Programming"@,
    }
}

/// The description of a core.
pub open spec fn core_description(kind: CoreKind) -> Seq<char> {
    match kind {
        CoreKind::General => "Autonomous general-purpose coding agent."@,
        CoreKind::Learning => "Autonomous agent that explains decisions while helping you learn."@,
        CoreKind::PairProgramming => "Suggests tool use and waits for confirmation before executing."@,
    }
}

/// The mode of interaction of a core: only pair programming asks before running tools.
pub open spec fn core_mode(kind: CoreKind) -> InteractionMode {
    match kind {
        CoreKind::PairProgramming => InteractionMode::SuggestAndConfirm,
        _ => InteractionMode::Autonomous,
    }
}

/// The model a core asks for: none for the general core, `model` for the learning and
/// pair-programming cores.
pub open spec fn core_model(kind: CoreKind, model: Seq<char>) -> Option<Seq<char>> {
    match kind {
        CoreKind::General => None,
        _ => Some(model),
    }
}

fn prompt_with_shell(lead: &str, shell: &str, tail: &str) -> (r: String)
    ensures
        r@ == lead@ + shell@ + tail@,
{
    let mut r = lead.to_owned();
    r.append(shell);
    r.append(tail);
    r
}

/// The profile of a core, for a workspace whose commands run in `shell`; `model` is the
/// model the learning and pair-programming cores always ask for.
pub fn core_profile(kind: CoreKind, shell: ShellKind, model: &str) -> (p: CoreProfile)
    ensures
        p.kind == kind,
        p.display_name@ == core_display_name(kind),
        p.description@ == core_description(kind),
        p.system_prompt@ == core_prompt(kind, shell_name(shell)),
        p.interaction_mode == core_mode(kind),
        crate::message::opt_view(p.default_model) == core_model(kind, model@),
{
    let shell_name = shell.display_name();
    match kind {
        CoreKind::General => CoreProfile {
            kind,
            display_name: "General",
            description: "Autonomous general-purpose coding agent.",
            system_prompt: prompt_with_shell(
                "You are an AI agent given tools to help people. Use the shell tool to run ",
                shell_name,
                " commands in the workspace, the read/write/edit tools for files when you know filenames, and the web search tool to interface with the web.",
            ),
            interaction_mode: InteractionMode::Autonomous,
            default_model: None,
        },
        CoreKind::Learning => CoreProfile {
            kind,
            display_name: "Learning",
            description: "Autonomous agent that explains decisions while helping you learn.",
            system_prompt: prompt_with_shell(
                "You are a learning-focused coding agent. Help the user solve the task while teaching the reasoning behind important choices. Use the shell tool to run ",
                shell_name,
                " commands in the workspace, the read/write/edit tools for files when you know filenames, and the web search tool when useful. Prefer concise explanations tied to the current code over generic tutorials.",
            ),
            interaction_mode: InteractionMode::Autonomous,
            default_model: Some(model.to_owned()),
        },
        CoreKind::PairProgramming => CoreProfile {
            kind,
            display_name: "Pair Programming",
            description: "Suggests tool use and waits for confirmation before executing.",
            system_prompt: prompt_with_shell(
                "You are a pair programming coding agent. Work collaboratively, explain proposed changes before risky actions, and keep the user in control. Use the shell tool to run ",
                shell_name,
                " commands in the workspace, the read/write/edit tools for files when you know filenames, and the web search tool when useful. In suggest-and-confirm mode, tool calls are proposed for human approval before execution.",
            ),
            interaction_mode: InteractionMode::SuggestAndConfirm,
            default_model: Some(model.to_owned()),
        },
    }
}

/// The system prompt of the general core.
pub fn default_system_prompt(shell: ShellKind) -> (s: String)
    ensures
        s@ == core_prompt(CoreKind::General, shell_name(shell)),
{
    core_profile(CoreKind::General, shell, "").system_prompt
}

} // verus!
