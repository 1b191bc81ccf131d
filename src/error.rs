//! The library's error type.

use vstd::prelude::*;

verus! {

/// Everything that can go wrong while resolving credentials.
#[derive(Debug, Clone)]
pub enum Error {
    /// No usable token-cache entry exists for the start URL.
    MissingCache,
    /// The device-authorization deadline passed before a token was issued.
    ExpiredCache,
    /// A cache file could not be written or decoded.
    CacheParse { path: String },
    /// A remote call failed; the text carries the provider's diagnostics.
    AwsSdk(String),
    /// The interactive selector failed.
    Tui(String),
    /// The operator made no selection.
    NoSelection,
    /// The home directory is unknown.
    MissingHome,
    /// No start URL was configured or given.
    MissingStartUrl,
    /// No region was configured or given.
    MissingRegion,
    /// No identity was configured or selected.
    MissingAccount,
    /// The browser could not be opened.
    OpenBrowser(String),
    /// The configuration could not be read, written or applied.
    Config(String),
}

/// The human-readable description of an error.
pub open spec fn error_text(e: Error) -> Seq<char> {
    match e {
        Error::MissingCache => "missing AWS SSO cache for start URL"@,
        Error::ExpiredCache => "SSO cache is expired for start URL"@,
        Error::CacheParse { path } => "failed to parse cache file: "@ + path@,
        Error::AwsSdk(m) => "aws sdk error: "@ + m@,
        Error::Tui(m) => "tui error: "@ + m@,
        Error::NoSelection => "no role selection was made"@,
        Error::MissingHome => "HOME is not set"@,
        Error::MissingStartUrl => "missing SSO start URL (pass it or set in config)"@,
        Error::MissingRegion => "missing SSO region (pass it or set in config)"@,
        Error::MissingAccount => "missing SSO account (configure accounts or pass --account)"@,
        Error::OpenBrowser(m) => "failed to open browser: "@ + m@,
        Error::Config(m) => "config error: "@ + m@,
    }
}

fn prefixed(prefix: &str, rest: &String) -> (r: String)
    ensures
        r@ == prefix@ + rest@,
{
    let mut s = String::from_str(prefix);
    s.append(rest.as_str());
    s
}

impl Error {
    /// The description shown to the operator.
    pub fn message(&self) -> (r: String)
        ensures
            r@ == error_text(*self),
    {
        match self {
            Error::MissingCache => String::from_str("missing AWS SSO cache for start URL"),
            Error::ExpiredCache => String::from_str("SSO cache is expired for start URL"),
            Error::CacheParse { path } => prefixed("failed to parse cache file: ", path),
            Error::AwsSdk(m) => prefixed("aws sdk error: ", m),
            Error::Tui(m) => prefixed("tui error: ", m),
            Error::NoSelection => String::from_str("no role selection was made"),
            Error::MissingHome => String::from_str("HOME is not set"),
            Error::MissingStartUrl => String::from_str(
                "missing SSO start URL (pass it or set in config)",
            ),
            Error::MissingRegion => String::from_str("missing SSO region (pass it or set in config)"),
            Error::MissingAccount => String::from_str(
                "missing SSO account (configure accounts or pass --account)",
            ),
            Error::OpenBrowser(m) => prefixed("failed to open browser: ", m),
            Error::Config(m) => prefixed("config error: ", m),
        }
    }
}

} // verus!
