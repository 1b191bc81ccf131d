//! The records that flow between the caches, the remote service and the caller.

use vstd::prelude::*;

use crate::text::decimal;
use crate::timestamps::{format_rfc3339, rfc3339_of};
use crate::text::decimal_of;

verus! {

/// An OAuth access token for one start URL.
#[derive(Debug, Clone)]
pub struct CacheEntry {
    pub access_token: String,
    /// RFC 3339 expiry instant.
    pub expires_at: String,
    pub region: String,
}

#[derive(Debug, Clone)]
pub struct Account {
    pub id: String,
    pub name: String,
}

#[derive(Debug, Clone)]
pub struct Role {
    pub name: String,
}

/// One selectable (account, role) pair.
#[derive(Debug, Clone)]
pub struct RoleChoice {
    pub account_id: String,
    pub account_name: String,
    pub role_name: String,
}

/// Temporary credentials for one role; `expiration` is in Unix milliseconds.
#[derive(Debug, Clone)]
pub struct AwsRoleCredentials {
    pub access_key_id: String,
    pub secret_access_key: String,
    pub session_token: String,
    pub expiration: u64,
}

#[derive(Debug, Clone)]
pub struct AwsRegisterClient {
    pub client_id: String,
    pub client_secret: String,
    pub client_secret_expires_at: i64,
}

#[derive(Debug, Clone)]
pub struct AwsStartDeviceAuthorization {
    pub device_code: String,
    pub user_code: String,
    pub verification_uri_complete: String,
    /// Seconds until the device code expires.
    pub expires_in: u64,
    /// Minimum seconds between two token requests.
    pub interval: u64,
}

#[derive(Debug, Clone)]
pub struct AwsCreateToken {
    pub access_token: String,
    /// Seconds until the access token expires.
    pub expires_in: u64,
}

/// The shell environment that carries a role's credentials.
#[derive(Debug, Clone)]
pub struct EnvVars {
    pub access_key_id: String,
    pub secret_access_key: String,
    pub session_token: String,
    pub expiration_ms: u64,
    pub region: String,
    pub profile_name: String,
    pub config_file: Option<String>,
}

impl View for RoleChoice {
    /// (account id, account name, role name)
    type V = (Seq<char>, Seq<char>, Seq<char>);

    open spec fn view(&self) -> Self::V {
        (self.account_id@, self.account_name@, self.role_name@)
    }
}

impl View for AwsRoleCredentials {
    /// (access key id, secret access key, session token, expiration in ms)
    type V = (Seq<char>, Seq<char>, Seq<char>, u64);

    open spec fn view(&self) -> Self::V {
        (self.access_key_id@, self.secret_access_key@, self.session_token@, self.expiration)
    }
}

impl View for CacheEntry {
    /// (access token, expiry text, region)
    type V = (Seq<char>, Seq<char>, Seq<char>);

    open spec fn view(&self) -> Self::V {
        (self.access_token@, self.expires_at@, self.region@)
    }
}

/// Two lists of choices hold the same choices in the same order.
pub open spec fn same_choices(a: Seq<RoleChoice>, b: Seq<RoleChoice>) -> bool {
    a.len() == b.len() && forall|i: int| 0 <= i < a.len() ==> #[trigger] a[i]@ == b[i]@
}

impl RoleChoice {

    pub fn new(account: &Account, role: &Role) -> (r: Self)
        ensures
            r.account_id@ == account.id@,
            r.account_name@ == account.name@,
            r.role_name@ == role.name@,
    {
        Self {
            account_id: account.id.clone(),
            account_name: account.name.clone(),
            role_name: role.name.clone(),
        }
    }

    /// `name (id) — role`, as the selector shows it.
    pub fn label(&self) -> (r: String)
        ensures
            r@ == self.account_name@ + " ("@ + self.account_id@ + ") — "@ + self.role_name@,
    {
        let mut s = self.account_name.clone();
        s.append(" (");
        s.append(self.account_id.as_str());
        s.append(") — ");
        s.append(self.role_name.as_str());
        s
    }
}

/// The expiry shown in the environment: RFC 3339 where the instant can be
/// formatted, else the raw millisecond count.
pub open spec fn expiration_text(expiration_ms: u64) -> Seq<char> {
    match rfc3339_of((expiration_ms / 1000) as int) {
        Some(t) => t,
        None => decimal_of(expiration_ms as nat),
    }
}

pub fn format_expiration(expiration_ms: u64) -> (r: String)
    ensures
        r@ == expiration_text(expiration_ms),
{
    let seconds = (expiration_ms / 1000) as i64;
    match format_rfc3339(seconds) {
        Some(t) => t,
        None => decimal(expiration_ms),
    }
}

pub open spec fn export_line(name: Seq<char>, value: Seq<char>) -> Seq<char> {
    "export "@ + name + "="@ + value
}

impl EnvVars {
    pub open spec fn export_text(self) -> Seq<char> {
        let base = export_line("AWS_ACCESS_KEY_ID"@, self.access_key_id@) + "\n"@
            + export_line("AWS_SECRET_ACCESS_KEY"@, self.secret_access_key@) + "\n"@
            + export_line("AWS_SESSION_TOKEN"@, self.session_token@) + "\n"@
            + export_line("AWS_CREDENTIAL_EXPIRATION"@, expiration_text(self.expiration_ms))
            + "\n"@ + export_line("AWS_DEFAULT_REGION"@, self.region@) + "\n"@
            + export_line("AWS_REGION"@, self.region@) + "\n"@
            + export_line("AWS_PROFILE"@, self.profile_name@);
        match self.config_file {
            Some(p) => base + "\n"@ + export_line("AWS_CONFIG_FILE"@, p@),
            None => base,
        }
    }

    pub fn from_role_credentials(creds: &AwsRoleCredentials, profile_name: &str, region: &str) -> (r: Self)
        ensures
            r.access_key_id@ == creds.access_key_id@,
            r.secret_access_key@ == creds.secret_access_key@,
            r.session_token@ == creds.session_token@,
            r.expiration_ms == creds.expiration,
            r.region@ == region@,
            r.profile_name@ == profile_name@,
            r.config_file is None,
    {
        Self {
            access_key_id: creds.access_key_id.clone(),
            secret_access_key: creds.secret_access_key.clone(),
            session_token: creds.session_token.clone(),
            expiration_ms: creds.expiration,
            region: String::from_str(region),
            profile_name: String::from_str(profile_name),
            config_file: None,
        }
    }

    /// Shell `export` lines, one per variable, joined by newlines.
    pub fn to_export_lines(&self) -> (r: String)
        ensures
            r@ == self.export_text(),
    {
        let expiration = format_expiration(self.expiration_ms);
        let mut s = String::from_str("export AWS_ACCESS_KEY_ID=");
        s.append(self.access_key_id.as_str());
        s.append("\nexport AWS_SECRET_ACCESS_KEY=");
        s.append(self.secret_access_key.as_str());
        s.append("\nexport AWS_SESSION_TOKEN=");
        s.append(self.session_token.as_str());
        s.append("\nexport AWS_CREDENTIAL_EXPIRATION=");
        s.append(expiration.as_str());
        s.append("\nexport AWS_DEFAULT_REGION=");
        s.append(self.region.as_str());
        s.append("\nexport AWS_REGION=");
        s.append(self.region.as_str());
        s.append("\nexport AWS_PROFILE=");
        s.append(self.profile_name.as_str());
        match &self.config_file {
            Some(p) => {
                s.append("\nexport AWS_CONFIG_FILE=");
                s.append(p.as_str());
            },
            None => {},
        }
        proof {
            reveal_strlit("export ");
            reveal_strlit("=");
            reveal_strlit("\n");
            reveal_strlit("export AWS_ACCESS_KEY_ID=");
            reveal_strlit("AWS_ACCESS_KEY_ID");
            reveal_strlit("\nexport AWS_SECRET_ACCESS_KEY=");
            reveal_strlit("AWS_SECRET_ACCESS_KEY");
            reveal_strlit("\nexport AWS_SESSION_TOKEN=");
            reveal_strlit("AWS_SESSION_TOKEN");
            reveal_strlit("\nexport AWS_CREDENTIAL_EXPIRATION=");
            reveal_strlit("AWS_CREDENTIAL_EXPIRATION");
            reveal_strlit("\nexport AWS_DEFAULT_REGION=");
            reveal_strlit("AWS_DEFAULT_REGION");
            reveal_strlit("\nexport AWS_REGION=");
            reveal_strlit("AWS_REGION");
            reveal_strlit("\nexport AWS_PROFILE=");
            reveal_strlit("AWS_PROFILE");
            reveal_strlit("\nexport AWS_CONFIG_FILE=");
            reveal_strlit("AWS_CONFIG_FILE");
        }
        assert(s@ =~= self.export_text());
        s
    }
}

} // verus!
