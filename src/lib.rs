//! Resolution and caching of short-lived cloud credentials obtained through an
//! OAuth device-authorization flow.

pub mod aws_profile;
pub mod config;
pub mod credentials_cache;
pub mod device_auth;
pub mod digest;
pub mod error;
pub mod history;
pub mod hooks;
pub mod loopback;
pub mod model;
pub mod naming;
pub mod ordering;
pub mod refresh;
pub mod retry;
pub mod roles_cache;
pub mod selection;
pub mod session;
pub mod shell;
pub mod terminal;
pub mod text;
pub mod timestamps;
pub mod token_cache;
pub mod ui;

pub use crate::config::{AccountRule, Config, HookPromptMode, SelectorSortMode, SsoIdentity};
pub use crate::error::Error;
pub use crate::history::HistoryEntry;
pub use crate::model::{
    Account, AwsCreateToken, AwsRegisterClient, AwsRoleCredentials, AwsStartDeviceAuthorization,
    CacheEntry, EnvVars, Role, RoleChoice,
};
pub use crate::session::{App, AppAction, AppOptions};
pub use crate::shell::{BashShell, FishShell, Shell, ZshShell};
