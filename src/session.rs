//! What one run of the tool was asked to do.

use vstd::prelude::*;

use crate::config::{Config, SsoIdentity};
use crate::error::Error;
use crate::selection::{guess_account_name, guessed_name_of};
use crate::text::{lower_of, lowercase, trim, trimmed_of};

verus! {

/// Whether the chosen role's credentials are exported or its console opened.
#[derive(Debug, Clone, Copy, PartialEq, Eq, Structural)]
pub enum AppAction {
    SetEnv,
    Open,
}

impl Default for AppAction {
    fn default() -> (r: Self)
        ensures
            r == AppAction::SetEnv,
    {
        AppAction::SetEnv
    }
}

/// The options of one run; paths are plain strings.
#[derive(Debug, Clone)]
pub struct AppOptions {
    pub start_url: Option<String>,
    pub sso_region: Option<String>,
    pub refresh_seconds: Option<u64>,
    pub config_path: Option<String>,
    pub ignore_cache: bool,
    pub env_file: Option<String>,
    pub print_env: bool,
    pub account: Option<String>,
    pub show_all: bool,
    /// Search text the selector starts with; a non-blank one disables ranking.
    pub initial_query: Option<String>,
    pub action: AppAction,
}

impl Default for AppOptions {
    fn default() -> (r: Self)
        ensures
            r.start_url is None,
            r.sso_region is None,
            r.refresh_seconds is None,
            r.config_path is None,
            !r.ignore_cache,
            r.env_file is None,
            !r.print_env,
            r.account is None,
            !r.show_all,
            r.initial_query is None,
            r.action == AppAction::SetEnv,
    {
        AppOptions {
            start_url: None,
            sso_region: None,
            refresh_seconds: None,
            config_path: None,
            ignore_cache: false,
            env_file: None,
            print_env: false,
            account: None,
            show_all: false,
            initial_query: None,
            action: AppAction::SetEnv,
        }
    }
}

/// One run of the tool.
#[derive(Debug, Clone)]
pub struct App {
    pub options: AppOptions,
}

impl App {
    pub fn new(options: AppOptions) -> (r: Self)
        ensures
            r.options == options,
    {
        Self { options }
    }

    /// The prompt the selector shows for this run's action.
    pub fn prompt(&self) -> (r: &'static str)
        ensures
            self.options.action == AppAction::SetEnv ==> r@ == "roleman> "@,
            self.options.action == AppAction::Open ==> r@ == "roleman open> "@,
    {
        match self.options.action {
            AppAction::SetEnv => "roleman> ",
            AppAction::Open => "roleman open> ",
        }
    }
}

/// Which identity a run uses.
#[derive(Debug, Clone)]
pub enum IdentityChoice {
    /// The configured identity at this index.
    Configured(usize),
    /// An identity given on the command line; `offer_save` when no
    /// configuration exists yet, so the operator may keep it.
    Manual { identity: SsoIdentity, offer_save: bool },
    /// Several identities and no default: the operator picks one.
    Prompt,
}

/// The first configured identity named `name`.
pub open spec fn first_named(ids: Seq<SsoIdentity>, name: Seq<char>, k: int) -> bool {
    0 <= k < ids.len() && ids[k].name@ == name && forall|j: int| 0 <= j < k ==> (#[trigger] ids[j]).name@ != name
}

pub open spec fn has_named(ids: Seq<SsoIdentity>, name: Seq<char>) -> bool {
    exists|k: int| 0 <= k < ids.len() && (#[trigger] ids[k]).name@ == name
}

fn find_named(ids: &Vec<SsoIdentity>, name: &String) -> (r: Option<usize>)
    ensures
        match r {
            Some(k) => first_named(ids@, name@, k as int),
            None => !has_named(ids@, name@),
        },
{
    let mut k: usize = 0;
    while k < ids.len()
        invariant
            k <= ids@.len(),
            forall|j: int| 0 <= j < k ==> (#[trigger] ids@[j]).name@ != name@,
        decreases ids@.len() - k,
    {
        if ids[k].name == *name {
            return Some(k);
        }
        k += 1;
    }
    None
}

/// Picks the identity of a run: the one named by `--account`; else the start
/// URL and region given on the command line; else the configured default;
/// else the only configured identity; else a prompt among several.
pub fn resolve_identity(options: &AppOptions, config: &Config, config_exists: bool) -> (r: Result<
    IdentityChoice,
    Error,
>)
    ensures
        options.account matches Some(name) ==> match r {
            Ok(IdentityChoice::Configured(k)) => first_named(config.identities@, name@, k as int),
            Err(Error::MissingAccount) => !has_named(config.identities@, name@),
            _ => false,
        },
        options.account is None && options.start_url is Some ==> match r {
            Ok(IdentityChoice::Manual { identity, offer_save }) => options.sso_region is Some
                && identity.name@ == "manual"@ && identity.start_url@ == options.start_url->0@
                && identity.sso_region@ == options.sso_region->0@ && identity.accounts@.len() == 0
                && identity.ignore_roles@.len() == 0
                && offer_save == (!config_exists && config.identities@.len() == 0),
            Err(Error::MissingRegion) => options.sso_region is None,
            _ => false,
        },
        options.account is None && options.start_url is None ==> match r {
            Ok(IdentityChoice::Configured(k)) => if config.default_identity is Some && has_named(
                config.identities@,
                config.default_identity->0@,
            ) {
                first_named(config.identities@, config.default_identity->0@, k as int)
            } else {
                config.identities@.len() == 1 && k == 0
            },
            Ok(IdentityChoice::Prompt) => config.identities@.len() > 1 && !(config.default_identity is Some
                && has_named(config.identities@, config.default_identity->0@)),
            Err(Error::MissingAccount) => config.identities@.len() == 0,
            _ => false,
        },
{
    if let Some(name) = &options.account {
        return match find_named(&config.identities, name) {
            Some(k) => Ok(IdentityChoice::Configured(k)),
            None => Err(Error::MissingAccount),
        };
    }
    if let Some(start_url) = &options.start_url {
        let region = match &options.sso_region {
            Some(r) => r.clone(),
            None => {
                return Err(Error::MissingRegion);
            },
        };
        let identity = SsoIdentity {
            name: String::from_str("manual"),
            start_url: start_url.clone(),
            sso_region: region,
            accounts: Vec::new(),
            ignore_roles: Vec::new(),
        };
        proof {
            reveal_strlit("manual");
        }
        let offer_save = !config_exists && config.identities.len() == 0;
        return Ok(IdentityChoice::Manual { identity, offer_save });
    }
    if let Some(default_name) = &config.default_identity {
        if let Some(k) = find_named(&config.identities, default_name) {
            return Ok(IdentityChoice::Configured(k));
        }
    }
    if config.identities.len() == 1 {
        return Ok(IdentityChoice::Configured(0));
    }
    if config.identities.len() == 0 {
        return Err(Error::MissingAccount);
    }
    Ok(IdentityChoice::Prompt)
}

/// An answer of `y` or `yes`, in any case, around white space.
pub fn is_yes(input: &str) -> (r: bool)
    ensures
        r == (lower_of(trimmed_of(input@)) == "y"@ || lower_of(trimmed_of(input@)) == "yes"@),
{
    let answer = lowercase(trim(input));
    answer == String::from_str("y") || answer == String::from_str("yes")
}

/// The name under which a start URL is saved: the operator's answer, trimmed,
/// or the name guessed from the URL when the answer is blank.
pub fn account_name_from_input(input: &str, start_url: &str) -> (r: String)
    ensures
        r@ == if trimmed_of(input@).len() == 0 {
            guessed_name_of(start_url@)
        } else {
            trimmed_of(input@)
        },
{
    let answer = trim(input);
    if answer.unicode_len() == 0 {
        guess_account_name(start_url)
    } else {
        String::from_str(answer)
    }
}

/// The value of a run of ASCII digits.
pub open spec fn digits_value(d: Seq<char>) -> nat
    decreases d.len(),
{
    if d.len() == 0 {
        0
    } else {
        digits_value(d.drop_last()) * 10 + (d.last() as u32 - '0' as u32) as nat
    }
}

/// The unsigned integer a text denotes: an optional `+`, then one or more
/// ASCII digits, with a value that fits in `usize`.
pub open spec fn usize_of(text: Seq<char>) -> Option<nat> {
    let d = unsigned_part(text);
    if d.len() > 0 && all_digits(d) && digits_value(d) <= usize::MAX {
        Some(digits_value(d))
    } else {
        None
    }
}

/// The text without a leading `+`.
pub open spec fn unsigned_part(text: Seq<char>) -> Seq<char> {
    if text.len() > 0 && text[0] == '+' {
        text.drop_first()
    } else {
        text
    }
}

pub open spec fn all_digits(d: Seq<char>) -> bool {
    forall|i: int| 0 <= i < d.len() ==> '0' <= #[trigger] d[i] <= '9'
}

proof fn lemma_digits_value_grows(d: Seq<char>, i: int)
    requires
        0 <= i <= d.len(),
        all_digits(d),
    ensures
        digits_value(d) >= digits_value(d.subrange(0, i)),
    decreases d.len(),
{
    if i < d.len() {
        let front = d.drop_last();
        assert(front.subrange(0, i) =~= d.subrange(0, i));
        lemma_digits_value_grows(front, i);
    } else {
        assert(d.subrange(0, i) =~= d);
    }
}

/// The unsigned integer a text denotes, as `str::parse::<usize>` reads it.
#[verifier::rlimit(30)]
fn parse_usize(s: &str) -> (r: Option<usize>)
    ensures
        r matches Some(v) ==> usize_of(s@) == Some(v as nat),
        r is None ==> usize_of(s@) is None,
{
    let t = crate::text::chars_of(s);
    let n = t.len();
    let start: usize = if n > 0 && t[0] == '+' { 1 } else { 0 };
    let ghost d = unsigned_part(s@);
    assert(d =~= t@.subrange(start as int, n as int));
    if start == n {
        return None;
    }
    let mut value: usize = 0;
    let mut i: usize = start;
    while i < n
        invariant
            t@ == s@,
            n == t@.len(),
            start <= i <= n,
            d == t@.subrange(start as int, n as int),
            d == unsigned_part(s@),
            forall|k: int| start <= k < i ==> '0' <= #[trigger] t@[k] <= '9',
            value as nat == digits_value(t@.subrange(start as int, i as int)),
        decreases n - i,
    {
        let c = t[i];
        if !('0' <= c && c <= '9') {
            assert(d[i - start] == c);
            assert(!all_digits(d));

            return None;
        }
        let digit = (c as u32 - '0' as u32) as usize;
        assert(t@.subrange(start as int, i + 1).drop_last() =~= t@.subrange(start as int, i as int));
        if value > (usize::MAX - digit) / 10 {
            proof {
                assert(value * 10 + digit > usize::MAX) by (nonlinear_arith)
                    requires value > (usize::MAX - digit) / 10, digit <= 9;
                let rest = t@.subrange(start as int, n as int);
                let pre = t@.subrange(start as int, i + 1);
                assert(rest.subrange(0, i + 1 - start) =~= pre);
                assert(pre.last() == c);
                assert(digits_value(pre) == value * 10 + digit);
                if all_digits(rest) {
                    lemma_digits_value_grows(rest, i + 1 - start);
                }

            }
            return None;
        }
        assert(value * 10 + digit <= usize::MAX) by (nonlinear_arith)
            requires value <= (usize::MAX - digit) / 10, digit <= 9;
        proof {
            let pre = t@.subrange(start as int, i + 1);
            assert(pre.last() == c);
            assert(digits_value(pre) == value * 10 + digit);
        }
        value = value * 10 + digit;
        i += 1;
    }
    Some(value)
}

/// The index picked by an answer that numbers the items from one; `None`
/// when the answer is not such a number.
pub fn selected_index(input: &str, count: usize) -> (r: Option<usize>)
    ensures
        match usize_of(trimmed_of(input@)) {
            Some(v) => if 1 <= v <= count {
                r == Some((v - 1) as usize)
            } else {
                r is None
            },
            None => r is None,
        },
{
    match parse_usize(trim(input)) {
        Some(v) => {
            if v >= 1 && v <= count {
                Some(v - 1)
            } else {
                None
            }
        },
        None => None,
    }
}

} // verus!
