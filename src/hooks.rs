//! Installing the shell hook into a start-up file, and recognising it there.

use vstd::prelude::*;

use crate::config::{Config, HookPromptMode};
use crate::text::{
    contains, join_with, joined, lines_of, occurs_at, push_char, seq_contains, split_lines, starts_with,
    string_views, trim, trim_start, trimmed_of, trimmed_start_of,
};

verus! {

/// The shell commands that clear the exported variables.
pub fn unset_payload() -> (r: &'static str)
    ensures
        r@ == "unset AWS_ACCESS_KEY_ID AWS_SECRET_ACCESS_KEY AWS_SESSION_TOKEN AWS_CREDENTIAL_EXPIRATION AWS_DEFAULT_REGION AWS_REGION AWS_PROFILE\n"@,
{
    "unset AWS_ACCESS_KEY_ID AWS_SECRET_ACCESS_KEY AWS_SESSION_TOKEN AWS_CREDENTIAL_EXPIRATION AWS_DEFAULT_REGION AWS_REGION AWS_PROFILE\n"
}

/// The configured hook prompt, else `Never` when prompting was switched off,
/// else `Always`.
pub fn hook_prompt_mode(config: &Config) -> (r: HookPromptMode)
    ensures
        r == match config.hook_prompt {
            Some(m) => m,
            None => if config.prompt_for_hook == Some(false) {
                HookPromptMode::Never
            } else {
                HookPromptMode::Always
            },
        },
{
    match config.hook_prompt {
        Some(m) => m,
        None => match config.prompt_for_hook {
            Some(false) => HookPromptMode::Never,
            _ => HookPromptMode::Always,
        },
    }
}

/// A start-up file line that loads the hook: not blank, not a comment, and
/// naming the hook's variables or holding the install line.
pub open spec fn hook_line(line: Seq<char>, install_line: Seq<char>) -> bool {
    let t = trimmed_start_of(line);
    t.len() > 0 && !(t[0] == '#') && (seq_contains(t, "_ROLEMAN_HOOK_VERSION"@) || seq_contains(
        t,
        "_ROLEMAN_HOOK_ENV"@,
    ) || seq_contains(t, install_line))
}

/// Whether a start-up file already loads the hook.
pub fn has_active_hook(contents: &str, install_line: &str) -> (r: bool)
    ensures
        r == exists|i: int| 0 <= i < lines_of(contents@).len() && hook_line(#[trigger] lines_of(contents@)[i], install_line@),
{
    let lines = split_lines(contents);
    let mut i: usize = 0;
    while i < lines.len()
        invariant
            i <= lines@.len(),
            string_views(lines@) == lines_of(contents@),
            forall|j: int| 0 <= j < i ==> !hook_line(#[trigger] lines_of(contents@)[j], install_line@),
        decreases lines@.len() - i,
    {
        assert(lines_of(contents@)[i as int] == lines@[i as int]@);
        let t = trim_start(lines[i].as_str());
        let n = t.unicode_len();
        if n > 0 && t.get_char(0) != '#' && (contains(t, "_ROLEMAN_HOOK_VERSION") || contains(
            t,
            "_ROLEMAN_HOOK_ENV",
        ) || contains(t, install_line)) {
            return true;
        }
        i += 1;
    }
    false
}

/// A line that an earlier installation of the hook wrote.
pub open spec fn installed_line(line: Seq<char>) -> bool {
    let t = trimmed_of(line);
    t == "alias rl='roleman'"@ || t == "alias rl roleman"@ || t == "export _ROLEMAN_HOOK_VERSION=1"@
        || occurs_at(t, "eval \"$(roleman hook "@, 0) || occurs_at(t, "roleman hook "@, 0)
        || seq_contains(t, "_ROLEMAN_HOOK_ENV"@) || seq_contains(t, "_ROLEMAN_HOOK_VERSION"@)
}

/// The lines that stay when the hook's lines are removed, in order.
pub open spec fn kept_lines(lines: Seq<Seq<char>>) -> Seq<Seq<char>>
    decreases lines.len(),
{
    if lines.len() == 0 {
        Seq::empty()
    } else if installed_line(lines.last()) {
        kept_lines(lines.drop_last())
    } else {
        kept_lines(lines.drop_last()).push(lines.last())
    }
}

fn is_installed_line(line: &str) -> (r: bool)
    ensures
        r == installed_line(line@),
{
    let t = trim(line);
    let owned = String::from_str(t);
    owned == String::from_str("alias rl='roleman'") || owned == String::from_str("alias rl roleman")
        || owned == String::from_str("export _ROLEMAN_HOOK_VERSION=1") || starts_with(
        t,
        "eval \"$(roleman hook ",
    ) || starts_with(t, "roleman hook ") || contains(t, "_ROLEMAN_HOOK_ENV") || contains(
        t,
        "_ROLEMAN_HOOK_VERSION",
    )
}

/// The start-up file without the lines of an earlier installation, its lines
/// joined by newlines.
pub fn remove_hook_lines(contents: &str) -> (r: String)
    ensures
        r@ == joined(kept_lines(lines_of(contents@)), "\n"@),
{
    let lines = split_lines(contents);
    let mut kept: Vec<String> = Vec::new();
    let mut i: usize = 0;
    while i < lines.len()
        invariant
            i <= lines@.len(),
            string_views(lines@) == lines_of(contents@),
            string_views(kept@) == kept_lines(lines_of(contents@).subrange(0, i as int)),
        decreases lines@.len() - i,
    {
        assert(lines_of(contents@)[i as int] == lines@[i as int]@);
        assert(lines_of(contents@).subrange(0, i + 1).drop_last() =~= lines_of(contents@).subrange(0, i as int));
        if !is_installed_line(lines[i].as_str()) {
            let ghost prev = kept@;
            kept.push(lines[i].clone());
            assert(string_views(kept@) =~= string_views(prev).push(lines@[i as int]@));
        }
        i += 1;
    }
    assert(lines_of(contents@).subrange(0, lines@.len() as int) =~= lines_of(contents@));
    join_with(&kept, "\n")
}

/// The start-up file with the hook appended: a newline to end the existing
/// text where it lacks one, then an empty line, the install line, the alias
/// line if wanted, and a final newline.
pub open spec fn installed_contents(contents: Seq<char>, install_line: Seq<char>, alias_line: Option<Seq<char>>) -> Seq<char> {
    let base = if contents.len() > 0 && contents.last() != '\n' {
        contents.push('\n')
    } else {
        contents
    };
    let block = match alias_line {
        Some(a) => seq!['\n'] + install_line + seq!['\n'] + a + seq!['\n'],
        None => seq!['\n'] + install_line + seq!['\n'],
    };
    base + block
}

pub open spec fn opt_line(o: Option<&str>) -> Option<Seq<char>> {
    match o {
        Some(s) => Some(s@),
        None => None,
    }
}

pub fn install_contents(contents: &str, install_line: &str, alias_line: Option<&str>) -> (r: String)
    ensures
        r@ == installed_contents(contents@, install_line@, opt_line(alias_line)),
{
    let mut out = String::from_str(contents);
    let n = contents.unicode_len();
    if n > 0 && contents.get_char(n - 1) != '\n' {
        push_char(&mut out, '\n');
    }
    push_char(&mut out, '\n');
    out.append(install_line);
    match alias_line {
        Some(a) => {
            push_char(&mut out, '\n');
            out.append(a);
        },
        None => {},
    }
    push_char(&mut out, '\n');
    proof {
        let base = if contents@.len() > 0 && contents@.last() != '\n' {
            contents@.push('\n')
        } else {
            contents@
        };
        match alias_line {
            Some(a) => {
                assert(out@ =~= base + (seq!['\n'] + install_line@ + seq!['\n'] + a@ + seq!['\n']));
            },
            None => {
                assert(out@ =~= base + (seq!['\n'] + install_line@ + seq!['\n']));
            },
        }
    }
    out
}

} // verus!
