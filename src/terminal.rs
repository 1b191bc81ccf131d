//! Naming the terminal application that started a process, from its command
//! line.

use vstd::prelude::*;

use crate::text::{
    chars_of, contains, is_alnum, is_ascii_alphanumeric, join_with, joined, lower_of, lowercase,
    matches_at, occurs_at, push_char, seq_contains, string_from_chars, string_views, trim,
    trim_char, trim_matches_char, trim_start_char, trimmed_of,
};

verus! {

/// The last component of a path, as `Path::file_name` gives it.
pub uninterp spec fn file_name_of(path: Seq<char>) -> Option<Seq<char>>;

/// Relies on `std::path::Path::file_name` and `OsStr::to_str`: the last
/// component of the path, where it has one.
#[verifier::external_body]
fn file_name(path: &str) -> (r: Option<String>)
    ensures
        crate::timestamps::opt_text(r) == file_name_of(path@),
{
    std::path::Path::new(path).file_name().and_then(|name| name.to_str()).map(|name| name.to_string())
}

/// The file name of a path without its extension, as `Path::file_stem` gives
/// it.
pub uninterp spec fn file_stem_of(path: Seq<char>) -> Option<Seq<char>>;

/// Relies on `std::path::Path::file_stem` and `OsStr::to_string_lossy`: the
/// file name without its extension, where there is a file name.
#[verifier::external_body]
fn file_stem(path: &str) -> (r: Option<String>)
    ensures
        crate::timestamps::opt_text(r) == file_stem_of(path@),
{
    std::path::Path::new(path).file_stem().map(|stem| stem.to_string_lossy().into_owned())
}

/// The capital of an ASCII small letter; any other character unchanged.
pub open spec fn ascii_upper_of(c: char) -> char {
    if 'a' <= c && c <= 'z' {
        ((c as u8) - 32) as u8 as char
    } else {
        c
    }
}

fn to_ascii_uppercase(c: char) -> (r: char)
    ensures
        r == ascii_upper_of(c),
{
    if 'a' <= c && c <= 'z' {
        ((c as u8) - 32) as char
    } else {
        c
    }
}

/// The value of the first row of `table` whose key is `key`.
pub open spec fn lookup(table: Seq<(&str, &str)>, key: Seq<char>) -> Option<Seq<char>>
    decreases table.len(),
{
    if table.len() == 0 {
        None
    } else if table[0].0@ == key {
        Some(table[0].1@)
    } else {
        lookup(table.drop_first(), key)
    }
}

fn table_lookup(table: &Vec<(&'static str, &'static str)>, key: &String) -> (r: Option<&'static str>)
    ensures
        match lookup(table@, key@) {
            Some(v) => r matches Some(x) && x@ == v,
            None => r is None,
        },
{
    let n = table.len();
    let mut i: usize = 0;
    assert(table@.subrange(0, n as int) =~= table@);
    while i < n
        invariant
            n == table@.len(),
            i <= n,
            lookup(table@, key@) == lookup(table@.subrange(i as int, n as int), key@),
        decreases n - i,
    {
        let row = table[i];
        if String::from_str(row.0) == *key {
            return Some(row.1);
        }
        assert(table@.subrange(i as int, n as int).drop_first() =~= table@.subrange(i + 1, n as int));
        i += 1;
    }
    None
}

pub open spec fn listed(list: Seq<&str>, key: Seq<char>) -> bool {
    exists|i: int| 0 <= i < list.len() && (#[trigger] list[i])@ == key
}

fn list_has(list: &Vec<&'static str>, key: &String) -> (r: bool)
    ensures
        r == listed(list@, key@),
{
    let mut i: usize = 0;
    while i < list.len()
        invariant
            i <= list@.len(),
            forall|j: int| 0 <= j < i ==> (#[trigger] list@[j])@ != key@,
        decreases list@.len() - i,
    {
        if String::from_str(list[i]) == *key {
            return true;
        }
        i += 1;
    }
    false
}

/// `s` without every trailing `p`.
pub open spec fn strip_all_suffix(s: Seq<char>, p: Seq<char>) -> Seq<char>
    decreases s.len(),
{
    if p.len() > 0 && p.len() <= s.len() && s.subrange(s.len() - p.len(), s.len() as int) == p {
        strip_all_suffix(s.subrange(0, s.len() - p.len()), p)
    } else {
        s
    }
}

fn strip_all_suffix_vec(v: &Vec<char>, p: &Vec<char>) -> (r: Vec<char>)
    ensures
        r@ == strip_all_suffix(v@, p@),
{
    let mut end: usize = v.len();
    assert(v@.subrange(0, end as int) =~= v@);
    while p.len() > 0 && p.len() <= end && matches_at(v, p, end - p.len())
        invariant
            end <= v@.len(),
            strip_all_suffix(v@, p@) == strip_all_suffix(v@.subrange(0, end as int), p@),
        decreases end,
    {
        proof {
            let cur = v@.subrange(0, end as int);
            assert(cur.subrange(end - p@.len(), end as int) =~= v@.subrange(end - p@.len(), end as int));
            assert(cur.subrange(0, end - p@.len()) =~= v@.subrange(0, end - p@.len()));
        }
        end -= p.len();
    }
    proof {
        let cur = v@.subrange(0, end as int);
        if p@.len() > 0 && p@.len() <= end {
            assert(cur.subrange(end - p@.len(), end as int) =~= v@.subrange(end - p@.len(), end as int));
        }
    }
    let mut out: Vec<char> = Vec::new();
    let mut i: usize = 0;
    while i < end
        invariant
            end <= v@.len(),
            i <= end,
            out@ == v@.subrange(0, i as int),
        decreases end - i,
    {
        out.push(v[i]);
        i += 1;
        assert(out@ =~= v@.subrange(0, i as int));
    }
    out
}

/// A command line without surrounding white space and quotes.
pub open spec fn normalized_of(command: Seq<char>) -> Seq<char> {
    trim_char(trimmed_of(command), '"')
}

fn normalized(command: &str) -> (r: String)
    ensures
        r@ == normalized_of(command@),
{
    let t = chars_of(trim(command));
    string_from_chars(&trim_matches_char(&t, '"'))
}

/// The program part of a command: its file name, without leading dashes (a
/// login shell) and trailing `.exe`.
pub open spec fn program_of(command: Seq<char>) -> Seq<char> {
    let n = normalized_of(command);
    let base = match file_name_of(n) {
        Some(f) => f,
        None => n,
    };
    strip_all_suffix(trim_start_char(base, '-'), ".exe"@)
}

fn program(command: &str) -> (r: String)
    ensures
        r@ == program_of(command@),
{
    let n = normalized(command);
    let base = match file_name(n.as_str()) {
        Some(f) => f,
        None => n,
    };
    let v = chars_of(base.as_str());
    let trimmed = trim_matches_start(&v, '-');
    let exe = chars_of(".exe");
    string_from_chars(&strip_all_suffix_vec(&trimmed, &exe))
}

fn trim_matches_start(v: &Vec<char>, c: char) -> (r: Vec<char>)
    ensures
        r@ == trim_start_char(v@, c),
{
    let n = v.len();
    let mut start: usize = 0;
    assert(v@.subrange(0, n as int) =~= v@);
    while start < n && v[start] == c
        invariant
            n == v@.len(),
            start <= n,
            trim_start_char(v@, c) == trim_start_char(v@.subrange(start as int, n as int), c),
        decreases n - start,
    {
        assert(v@.subrange(start as int, n as int).drop_first() =~= v@.subrange(start + 1, n as int));
        start += 1;
    }
    let mut out: Vec<char> = Vec::new();
    let mut i: usize = start;
    while i < n
        invariant
            n == v@.len(),
            start <= i <= n,
            out@ == v@.subrange(start as int, i as int),
        decreases n - i,
    {
        out.push(v[i]);
        i += 1;
        assert(out@ =~= v@.subrange(start as int, i as int));
    }
    out
}

/// Programs that are shells.
pub open spec fn shell_programs() -> Seq<&'static str> {
    seq!["bash", "zsh", "fish", "sh", "dash", "ksh", "mksh", "tcsh", "csh", "nu", "xonsh", "pwsh", "powershell", "cmd"]
}

fn shell_program_list() -> (r: Vec<&'static str>)
    ensures
        r@ == shell_programs(),
{
    let v = vec!["bash", "zsh", "fish", "sh", "dash", "ksh", "mksh", "tcsh", "csh", "nu", "xonsh", "pwsh", "powershell", "cmd"];
    assert(v@ =~= shell_programs());
    v
}

/// Whether a command runs a shell.
pub fn is_shell_command(command: &str) -> (r: bool)
    ensures
        r == (normalized_of(command@).len() > 0 && listed(shell_programs(), lower_of(program_of(command@)))),
{
    let n = normalized(command);
    if n.as_str().unicode_len() == 0 {
        return false;
    }
    let p = program(command);
    let lower = lowercase(p.as_str());
    list_has(&shell_program_list(), &lower)
}

/// The words of `s` so far, and the word being read: runs of ASCII letters
/// and digits.
pub open spec fn word_state(s: Seq<char>) -> (Seq<Seq<char>>, Seq<char>)
    decreases s.len(),
{
    if s.len() == 0 {
        (Seq::empty(), Seq::empty())
    } else {
        let st = word_state(s.drop_last());
        if is_alnum(s.last()) {
            (st.0, st.1.push(s.last()))
        } else if st.1.len() > 0 {
            (st.0.push(st.1), Seq::empty())
        } else {
            st
        }
    }
}

/// The runs of ASCII letters and digits of `s`.
pub open spec fn words_of(s: Seq<char>) -> Seq<Seq<char>> {
    let st = word_state(s);
    if st.1.len() > 0 {
        st.0.push(st.1)
    } else {
        st.0
    }
}

pub open spec fn capitalized(w: Seq<char>) -> Seq<char> {
    seq![ascii_upper_of(w[0])] + w.drop_first()
}

/// The words of an identifier, each capitalized, joined by spaces; the
/// identifier itself when it has no word.
pub open spec fn title_case_of(s: Seq<char>) -> Seq<char> {
    let ws = words_of(s);
    if ws.len() == 0 {
        s
    } else {
        joined(ws.map_values(|w: Seq<char>| capitalized(w)), " "@)
    }
}

fn capitalize(w: &Vec<char>) -> (r: String)
    requires
        w@.len() > 0,
    ensures
        r@ == capitalized(w@),
{
    let mut out = String::new();
    push_char(&mut out, to_ascii_uppercase(w[0]));
    let mut i: usize = 1;
    while i < w.len()
        invariant
            1 <= i <= w@.len(),
            out@ == seq![ascii_upper_of(w@[0])] + w@.subrange(1, i as int),
        decreases w@.len() - i,
    {
        push_char(&mut out, w[i]);
        i += 1;
        assert(out@ =~= seq![ascii_upper_of(w@[0])] + w@.subrange(1, i as int));
    }
    assert(w@.drop_first() =~= w@.subrange(1, w@.len() as int));
    out
}

/// `windows_terminal` as `Windows Terminal`.
pub fn title_case_identifier(value: &str) -> (r: String)
    ensures
        r@ == title_case_of(value@),
{
    let v = chars_of(value);
    let mut done: Vec<String> = Vec::new();
    let mut cur: Vec<char> = Vec::new();
    let mut i: usize = 0;
    assert(v@.subrange(0, 0) =~= Seq::<char>::empty());
    assert(string_views(done@) =~= word_state(v@.subrange(0, 0)).0.map_values(|w: Seq<char>| capitalized(w)));
    while i < v.len()
        invariant
            v@ == value@,
            i <= v@.len(),
            string_views(done@) == word_state(v@.subrange(0, i as int)).0.map_values(|w: Seq<char>| capitalized(w)),
            cur@ == word_state(v@.subrange(0, i as int)).1,
        decreases v@.len() - i,
    {
        let ghost before = v@.subrange(0, i as int);
        assert(v@.subrange(0, i + 1).drop_last() =~= before);
        let ch = v[i];
        if is_ascii_alphanumeric(ch) {
            cur.push(ch);
        } else if cur.len() > 0 {
            let ghost prev = done@;
            let word = capitalize(&cur);
            done.push(word);
            cur = Vec::new();
            assert(string_views(done@) =~= string_views(prev).push(capitalized(word_state(before).1)));
            assert(word_state(before).0.push(word_state(before).1).map_values(|w: Seq<char>| capitalized(w))
                =~= word_state(before).0.map_values(|w: Seq<char>| capitalized(w)).push(capitalized(word_state(before).1)));
            assert(cur@ =~= Seq::<char>::empty());
        }
        i += 1;
    }
    assert(v@.subrange(0, v@.len() as int) =~= v@);
    if cur.len() > 0 {
        let ghost prev = done@;
        let word = capitalize(&cur);
        done.push(word);
        assert(string_views(done@) =~= string_views(prev).push(capitalized(word_state(value@).1)));
        assert(word_state(value@).0.push(word_state(value@).1).map_values(|w: Seq<char>| capitalized(w))
            =~= word_state(value@).0.map_values(|w: Seq<char>| capitalized(w)).push(capitalized(word_state(value@).1)));
    }
    if done.len() == 0 {
        String::from_str(value)
    } else {
        join_with(&done, " ")
    }
}

pub open spec fn ends_with(s: Seq<char>, p: Seq<char>) -> bool {
    p.len() <= s.len() && s.subrange(s.len() - p.len(), s.len() as int) == p
}

fn ends_with_str(s: &str, p: &str) -> (r: bool)
    ensures
        r == ends_with(s@, p@),
{
    let a = chars_of(s);
    let b = chars_of(p);
    if b.len() > a.len() {
        return false;
    }
    let r = matches_at(&a, &b, a.len() - b.len());
    r
}

/// Program names of terminal applications, and the applications' names.
pub open spec fn terminal_table() -> Seq<(&'static str, &'static str)> {
    seq![
        ("terminal", "Terminal"), ("apple_terminal", "Terminal"), ("iterm", "iTerm"), ("iterm2", "iTerm"),
        ("warp", "Warp"), ("warpterminal", "Warp"), ("wezterm", "WezTerm"), ("wezterm-gui", "WezTerm"),
        ("alacritty", "Alacritty"), ("kitty", "kitty"), ("hyper", "Hyper"), ("rio", "Rio"),
        ("gnome-terminal", "GNOME Terminal"), ("gnome-terminal-server", "GNOME Terminal"),
        ("konsole", "Konsole"), ("xfce4-terminal", "Xfce Terminal"), ("tilix", "Tilix"),
        ("terminator", "Terminator"), ("foot", "foot"), ("xterm", "xterm"), ("urxvt", "urxvt"),
        ("st", "st"), ("ptyxis", "Ptyxis"), ("tabby", "Tabby"), ("windowsterminal", "Windows Terminal"),
        ("wt", "Windows Terminal"), ("cmd", "Windows Console Host"), ("conhost", "Windows Console Host"),
        ("powershell", "PowerShell"), ("pwsh", "PowerShell"), ("code", "Visual Studio Code"),
        ("code-insiders", "Visual Studio Code")
    ]
}

fn terminal_table_rows() -> (r: Vec<(&'static str, &'static str)>)
    ensures
        r@ == terminal_table(),
{
    let v = vec![
        ("terminal", "Terminal"), ("apple_terminal", "Terminal"), ("iterm", "iTerm"), ("iterm2", "iTerm"),
        ("warp", "Warp"), ("warpterminal", "Warp"), ("wezterm", "WezTerm"), ("wezterm-gui", "WezTerm"),
        ("alacritty", "Alacritty"), ("kitty", "kitty"), ("hyper", "Hyper"), ("rio", "Rio"),
        ("gnome-terminal", "GNOME Terminal"), ("gnome-terminal-server", "GNOME Terminal"),
        ("konsole", "Konsole"), ("xfce4-terminal", "Xfce Terminal"), ("tilix", "Tilix"),
        ("terminator", "Terminator"), ("foot", "foot"), ("xterm", "xterm"), ("urxvt", "urxvt"),
        ("st", "st"), ("ptyxis", "Ptyxis"), ("tabby", "Tabby"), ("windowsterminal", "Windows Terminal"),
        ("wt", "Windows Terminal"), ("cmd", "Windows Console Host"), ("conhost", "Windows Console Host"),
        ("powershell", "PowerShell"), ("pwsh", "PowerShell"), ("code", "Visual Studio Code"),
        ("code-insiders", "Visual Studio Code")
    ];
    assert(v@ =~= terminal_table());
    v
}

/// The terminal application a command line belongs to, where it is a known
/// one: editors and Windows Terminal by path, others by program name.
pub open spec fn terminal_app_of(command: Seq<char>) -> Option<Seq<char>> {
    let n = normalized_of(command);
    let lower = lower_of(n);
    if n.len() == 0 {
        None
    } else if seq_contains(lower, "visual studio code.app"@) || seq_contains(lower, "vscode"@)
        || ends_with(lower, "/code"@) || ends_with(lower, "\\code.exe"@) {
        Some("Visual Studio Code"@)
    } else if seq_contains(lower, "windows terminal"@) {
        Some("Windows Terminal"@)
    } else {
        lookup(terminal_table(), lower_of(program_of(command)))
    }
}

pub fn terminal_app_for_command(command: &str) -> (r: Option<&'static str>)
    ensures
        match terminal_app_of(command@) {
            Some(v) => r matches Some(x) && x@ == v,
            None => r is None,
        },
{
    let n = normalized(command);
    if n.as_str().unicode_len() == 0 {
        return None;
    }
    let lower = lowercase(n.as_str());
    let l = lower.as_str();
    if contains(l, "visual studio code.app") || contains(l, "vscode") || ends_with_str(l, "/code")
        || ends_with_str(l, "\\code.exe") {
        return Some("Visual Studio Code");
    }
    if contains(l, "windows terminal") {
        return Some("Windows Terminal");
    }
    let p = program(command);
    let base = lowercase(p.as_str());
    table_lookup(&terminal_table_rows(), &base)
}

/// Program names that are never the terminal application.
pub open spec fn non_gui_programs() -> Seq<&'static str> {
    seq![
        "roleman", "cargo", "rustc", "bash", "zsh", "fish", "sh", "dash", "ksh", "mksh", "tcsh", "csh",
        "pwsh", "powershell", "cmd", "login", "launchd", "systemd", "init", "tmux", "screen"
    ]
}

fn non_gui_program_list() -> (r: Vec<&'static str>)
    ensures
        r@ == non_gui_programs(),
{
    let v = vec![
        "roleman", "cargo", "rustc", "bash", "zsh", "fish", "sh", "dash", "ksh", "mksh", "tcsh", "csh",
        "pwsh", "powershell", "cmd", "login", "launchd", "systemd", "init", "tmux", "screen"
    ];
    assert(v@ =~= non_gui_programs());
    v
}

/// A guess at the application of a command: its program name, title-cased,
/// unless that is a shell or another program that is no application.
pub open spec fn gui_app_of(command: Seq<char>) -> Option<Seq<char>> {
    let base = trimmed_of(program_of(command));
    if normalized_of(command).len() == 0 || base.len() == 0 || listed(non_gui_programs(), lower_of(base)) {
        None
    } else {
        Some(title_case_of(base))
    }
}

pub fn guess_gui_app_name_from_command(command: &str) -> (r: Option<String>)
    ensures
        crate::timestamps::opt_text(r) == gui_app_of(command@),
{
    let n = normalized(command);
    if n.as_str().unicode_len() == 0 {
        return None;
    }
    let p = program(command);
    let base = trim(p.as_str());
    if base.unicode_len() == 0 {
        return None;
    }
    let lower = lowercase(base);
    if list_has(&non_gui_program_list(), &lower) {
        return None;
    }
    Some(title_case_identifier(base))
}

/// The application bundle a command runs from: the name of the first
/// `.app` directory on its path, `iTerm2` read as `iTerm`.
pub open spec fn bundle_app_of(command: Seq<char>) -> Option<Seq<char>> {
    let n = normalized_of(command);
    if exists|k: int| crate::loopback::first_at(n, ".app/"@, k) {
        let k = choose|k: int| crate::loopback::first_at(n, ".app/"@, k);
        match file_stem_of(n.subrange(0, k + 4)) {
            Some(stem) => {
                let b = trimmed_of(stem);
                if b.len() == 0 {
                    None
                } else if b == "iTerm2"@ {
                    Some("iTerm"@)
                } else {
                    Some(b)
                }
            },
            None => None,
        }
    } else {
        None
    }
}

pub fn app_bundle_name_from_command(command: &str) -> (r: Option<String>)
    ensures
        crate::timestamps::opt_text(r) == bundle_app_of(command@),
{
    let n = chars_of(normalized(command).as_str());
    let marker = chars_of(".app/");
    proof {
        reveal_strlit(".app/");
    }
    let len = n.len();
    let mut k: usize = 0;
    let mut found = false;
    while !found && len >= 5 && k <= len - 5
        invariant
            n@ == normalized_of(command@),
            marker@ == ".app/"@,
            marker@.len() == 5,
            len == n@.len(),
            !found ==> forall|j: int| 0 <= j < k ==> !occurs_at(n@, marker@, j),
            found ==> crate::loopback::first_at(n@, marker@, k as int) && k + 5 <= len,
        decreases len - k + (if found { 0int } else { 1int }),
    {
        if matches_at(&n, &marker, k) {
            found = true;
        } else {
            k += 1;
        }
    }
    if !found {
        assert forall|j: int| !crate::loopback::first_at(n@, marker@, j) by {
            if 0 <= j && j + 5 <= len {
                assert(j < k);
            }
        }
        return None;
    }
    proof {
        let k2 = choose|k2: int| crate::loopback::first_at(n@, marker@, k2);
        assert(crate::loopback::first_at(n@, marker@, k as int));
        if k2 < k {
        } else if k2 > k {
            assert(!occurs_at(n@, marker@, k as int));
        }
        assert(k2 == k);
    }
    let mut prefix = String::new();
    let mut i: usize = 0;
    while i < k + 4
        invariant
            k + 5 <= len,
            len == n@.len(),
            i <= k + 4,
            prefix@ == n@.subrange(0, i as int),
        decreases k + 4 - i,
    {
        push_char(&mut prefix, n[i]);
        i += 1;
        assert(prefix@ =~= n@.subrange(0, i as int));
    }
    match file_stem(prefix.as_str()) {
        Some(stem) => {
            let b = trim(stem.as_str());
            if b.unicode_len() == 0 {
                None
            } else if String::from_str(b) == String::from_str("iTerm2") {
                Some(String::from_str("iTerm"))
            } else {
                Some(String::from_str(b))
            }
        },
        None => None,
    }
}

/// The application of a command: a known terminal, else its bundle.
pub fn app_name_for_command(command: &str) -> (r: Option<String>)
    ensures
        crate::timestamps::opt_text(r) == match terminal_app_of(command@) {
            Some(v) => Some(v),
            None => bundle_app_of(command@),
        },
{
    match terminal_app_for_command(command) {
        Some(name) => Some(String::from_str(name)),
        None => app_bundle_name_from_command(command),
    }
}

/// `TERM_PROGRAM` values of known terminals, and the terminals' names.
pub open spec fn term_program_table() -> Seq<(&'static str, &'static str)> {
    seq![
        ("Apple_Terminal", "Terminal"), ("iTerm.app", "iTerm"), ("WarpTerminal", "Warp"),
        ("WezTerm", "WezTerm"), ("vscode", "Visual Studio Code"), ("gnome-terminal", "GNOME Terminal"),
        ("konsole", "Konsole"), ("xfce4-terminal", "Xfce Terminal"), ("Windows_Terminal", "Windows Terminal")
    ]
}

/// The terminal a `TERM_PROGRAM` value names: a known one, else the value
/// title-cased; none for a blank value.
pub fn terminal_app_from_term_program(value: &str) -> (r: Option<String>)
    ensures
        crate::timestamps::opt_text(r) == if trimmed_of(value@).len() == 0 {
            None
        } else {
            match lookup(term_program_table(), trimmed_of(value@)) {
                Some(v) => Some(v),
                None => Some(title_case_of(trimmed_of(value@))),
            }
        },
{
    let t = trim(value);
    if t.unicode_len() == 0 {
        return None;
    }
    let rows = vec![
        ("Apple_Terminal", "Terminal"), ("iTerm.app", "iTerm"), ("WarpTerminal", "Warp"),
        ("WezTerm", "WezTerm"), ("vscode", "Visual Studio Code"), ("gnome-terminal", "GNOME Terminal"),
        ("konsole", "Konsole"), ("xfce4-terminal", "Xfce Terminal"), ("Windows_Terminal", "Windows Terminal")
    ];
    assert(rows@ =~= term_program_table());
    match table_lookup(&rows, &String::from_str(t)) {
        Some(name) => Some(String::from_str(name)),
        None => Some(title_case_identifier(t)),
    }
}

} // verus!
