//! The shell hook: per-shell snippets and the lines that install it.

use vstd::prelude::*;

verus! {

/// A shell the hook supports.
pub trait Shell {
    spec fn shell_name(&self) -> Seq<char>;

    spec fn install_text(&self) -> Seq<char>;

    spec fn alias_text(&self) -> Seq<char>;

    /// The shell's name, as `hook` takes it.
    fn name(&self) -> (r: &'static str)
        ensures
            r@ == self.shell_name(),
    ;

    /// The code that the shell evaluates at start-up.
    fn hook_snippet(&self) -> &'static str;

    /// The line to add to the shell's start-up file.
    fn install_line(&self) -> (r: String)
        ensures
            r@ == self.install_text(),
    ;

    /// A short alias for the tool.
    fn alias_line(&self) -> (r: &'static str)
        ensures
            r@ == self.alias_text(),
    ;

    /// The command that reloads a start-up file.
    fn reload_command(&self, rc_path: &str) -> (r: String)
        ensures
            r@ == "source "@ + rc_path@,
    ;
}

/// `eval "$(roleman hook <name>)"`.
pub open spec fn eval_install_text(name: Seq<char>) -> Seq<char> {
    "eval \"$(roleman hook "@ + name + ")\""@
}

fn eval_install_line(name: &str) -> (r: String)
    ensures
        r@ == eval_install_text(name@),
{
    let mut s = String::from_str("eval \"$(roleman hook ");
    s.append(name);
    s.append(")\"");
    s
}

fn source_command(rc_path: &str) -> (r: String)
    ensures
        r@ == "source "@ + rc_path@,
{
    let mut s = String::from_str("source ");
    s.append(rc_path);
    s
}

#[derive(Debug, Clone, Copy)]
pub struct ZshShell;

#[derive(Debug, Clone, Copy)]
pub struct BashShell;

#[derive(Debug, Clone, Copy)]
pub struct FishShell;

impl Shell for ZshShell {
    open spec fn shell_name(&self) -> Seq<char> {
        "zsh"@
    }

    open spec fn install_text(&self) -> Seq<char> {
        eval_install_text("zsh"@)
    }

    open spec fn alias_text(&self) -> Seq<char> {
        "alias rl='roleman'"@
    }

    fn name(&self) -> (r: &'static str) {
        "zsh"
    }

    fn hook_snippet(&self) -> &'static str {
        r##"export _ROLEMAN_HOOK_ENV="${XDG_STATE_HOME:-$HOME/.local/state}/roleman/env-${TTY//\//_}"
export _ROLEMAN_HOOK_VERSION=1
roleman() {
  command roleman --env-file "$_ROLEMAN_HOOK_ENV" "$@"
}
_roleman_precmd() {
  if [[ -f "$_ROLEMAN_HOOK_ENV" ]]; then
    source "$_ROLEMAN_HOOK_ENV"
    rm -f "$_ROLEMAN_HOOK_ENV"
  fi
}
autoload -Uz add-zsh-hook
add-zsh-hook precmd _roleman_precmd"##
    }

    fn install_line(&self) -> (r: String) {
        eval_install_line("zsh")
    }

    fn alias_line(&self) -> (r: &'static str) {
        "alias rl='roleman'"
    }

    fn reload_command(&self, rc_path: &str) -> (r: String) {
        source_command(rc_path)
    }
}

impl Shell for BashShell {
    open spec fn shell_name(&self) -> Seq<char> {
        "bash"@
    }

    open spec fn install_text(&self) -> Seq<char> {
        eval_install_text("bash"@)
    }

    open spec fn alias_text(&self) -> Seq<char> {
        "alias rl='roleman'"@
    }

    fn name(&self) -> (r: &'static str) {
        "bash"
    }

    fn hook_snippet(&self) -> &'static str {
        r##"export _ROLEMAN_HOOK_ENV="${XDG_STATE_HOME:-$HOME/.local/state}/roleman/env-${TTY//\//_}"
export _ROLEMAN_HOOK_VERSION=1
roleman() {
  command roleman --env-file "$_ROLEMAN_HOOK_ENV" "$@"
}
_roleman_prompt_command() {
  if [[ -f "$_ROLEMAN_HOOK_ENV" ]]; then
    source "$_ROLEMAN_HOOK_ENV"
    rm -f "$_ROLEMAN_HOOK_ENV"
  fi
}
if [[ -n "${PROMPT_COMMAND:-}" ]]; then
  PROMPT_COMMAND="_roleman_prompt_command;${PROMPT_COMMAND}"
else
  PROMPT_COMMAND="_roleman_prompt_command"
fi"##
    }

    fn install_line(&self) -> (r: String) {
        eval_install_line("bash")
    }

    fn alias_line(&self) -> (r: &'static str) {
        "alias rl='roleman'"
    }

    fn reload_command(&self, rc_path: &str) -> (r: String) {
        source_command(rc_path)
    }
}

impl Shell for FishShell {
    open spec fn shell_name(&self) -> Seq<char> {
        "fish"@
    }

    open spec fn install_text(&self) -> Seq<char> {
        "roleman hook fish | source"@
    }

    open spec fn alias_text(&self) -> Seq<char> {
        "alias rl roleman"@
    }

    fn name(&self) -> (r: &'static str) {
        "fish"
    }

    fn hook_snippet(&self) -> &'static str {
        r##"if set -q XDG_STATE_HOME
  set -gx _ROLEMAN_HOOK_ENV "$XDG_STATE_HOME/roleman/env-(string replace -a '/' '_' (tty))"
else
  set -gx _ROLEMAN_HOOK_ENV "$HOME/.local/state/roleman/env-(string replace -a '/' '_' (tty))"
end
set -gx _ROLEMAN_HOOK_VERSION 1
function roleman
  command roleman --env-file "$_ROLEMAN_HOOK_ENV" $argv
end
function __roleman_prompt --on-event fish_prompt
  if test -f "$_ROLEMAN_HOOK_ENV"
    source "$_ROLEMAN_HOOK_ENV"
    rm -f "$_ROLEMAN_HOOK_ENV"
  end
end"##
    }

    fn install_line(&self) -> (r: String) {
        String::from_str("roleman hook fish | source")
    }

    fn alias_line(&self) -> (r: &'static str) {
        "alias rl roleman"
    }

    fn reload_command(&self, rc_path: &str) -> (r: String) {
        source_command(rc_path)
    }
}

/// One of the supported shells.
#[derive(Debug, Clone, Copy)]
pub enum ShellKind {
    Zsh(ZshShell),
    Bash(BashShell),
    Fish(FishShell),
}

impl Shell for ShellKind {
    open spec fn shell_name(&self) -> Seq<char> {
        match self {
            ShellKind::Zsh(s) => s.shell_name(),
            ShellKind::Bash(s) => s.shell_name(),
            ShellKind::Fish(s) => s.shell_name(),
        }
    }

    open spec fn install_text(&self) -> Seq<char> {
        match self {
            ShellKind::Zsh(s) => s.install_text(),
            ShellKind::Bash(s) => s.install_text(),
            ShellKind::Fish(s) => s.install_text(),
        }
    }

    open spec fn alias_text(&self) -> Seq<char> {
        match self {
            ShellKind::Zsh(s) => s.alias_text(),
            ShellKind::Bash(s) => s.alias_text(),
            ShellKind::Fish(s) => s.alias_text(),
        }
    }

    fn name(&self) -> (r: &'static str) {
        match self {
            ShellKind::Zsh(s) => s.name(),
            ShellKind::Bash(s) => s.name(),
            ShellKind::Fish(s) => s.name(),
        }
    }

    fn hook_snippet(&self) -> &'static str {
        match self {
            ShellKind::Zsh(s) => s.hook_snippet(),
            ShellKind::Bash(s) => s.hook_snippet(),
            ShellKind::Fish(s) => s.hook_snippet(),
        }
    }

    fn install_line(&self) -> (r: String) {
        match self {
            ShellKind::Zsh(s) => s.install_line(),
            ShellKind::Bash(s) => s.install_line(),
            ShellKind::Fish(s) => s.install_line(),
        }
    }

    fn alias_line(&self) -> (r: &'static str) {
        match self {
            ShellKind::Zsh(s) => s.alias_line(),
            ShellKind::Bash(s) => s.alias_line(),
            ShellKind::Fish(s) => s.alias_line(),
        }
    }

    fn reload_command(&self, rc_path: &str) -> (r: String) {
        source_command(rc_path)
    }
}

/// The shell of a name, for the three supported shells.
pub fn shell_for_name(name: &str) -> (r: Option<ShellKind>)
    ensures
        r matches Some(s) ==> s.shell_name() == name@,
        r is None ==> name@ != "zsh"@ && name@ != "bash"@ && name@ != "fish"@,
{
    let n = String::from_str(name);
    if n == String::from_str("zsh") {
        Some(ShellKind::Zsh(ZshShell))
    } else if n == String::from_str("bash") {
        Some(ShellKind::Bash(BashShell))
    } else if n == String::from_str("fish") {
        Some(ShellKind::Fish(FishShell))
    } else {
        None
    }
}

} // verus!
