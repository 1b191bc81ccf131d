//! The operator's configuration, as plain values.

use vstd::prelude::*;

verus! {

/// When to offer installing the shell hook.
#[derive(Debug, Clone, Copy, PartialEq, Eq, Structural)]
pub enum HookPromptMode {
    Always,
    Never,
    Outdated,
}

/// How the selector orders candidates.
#[derive(Debug, Clone, Copy, PartialEq, Eq, Structural)]
pub enum SelectorSortMode {
    Dynamic,
    Alphabetical,
}

impl Default for SelectorSortMode {
    fn default() -> (r: Self)
        ensures
            r == SelectorSortMode::Dynamic,
    {
        SelectorSortMode::Dynamic
    }
}

/// Per-account rules of an identity.
#[derive(Debug, Clone)]
pub struct AccountRule {
    pub account_id: String,
    pub alias: Option<String>,
    pub ignored: bool,
    pub ignored_roles: Vec<String>,
    pub precedence: Option<i32>,
}

/// A named (start URL, region) pair with its account rules.
#[derive(Debug, Clone)]
pub struct SsoIdentity {
    pub name: String,
    pub start_url: String,
    pub sso_region: String,
    pub accounts: Vec<AccountRule>,
    pub ignore_roles: Vec<String>,
}

#[derive(Debug, Clone)]
pub struct Config {
    pub identities: Vec<SsoIdentity>,
    pub default_identity: Option<String>,
    pub refresh_seconds: Option<u64>,
    pub focus_terminal_after_auth: Option<bool>,
    pub close_auth_tab: Option<bool>,
    pub prompt_for_hook: Option<bool>,
    pub hook_prompt: Option<HookPromptMode>,
    pub selector_sort: SelectorSortMode,
}

impl Default for Config {
    fn default() -> (r: Self)
        ensures
            r.identities@.len() == 0,
            r.default_identity is None,
            r.refresh_seconds is None,
            r.focus_terminal_after_auth is None,
            r.close_auth_tab is None,
            r.prompt_for_hook is None,
            r.hook_prompt is None,
            r.selector_sort == SelectorSortMode::Dynamic,
    {
        Config {
            identities: Vec::new(),
            default_identity: None,
            refresh_seconds: None,
            focus_terminal_after_auth: None,
            close_auth_tab: None,
            prompt_for_hook: None,
            hook_prompt: None,
            selector_sort: SelectorSortMode::Dynamic,
        }
    }
}

} // verus!
