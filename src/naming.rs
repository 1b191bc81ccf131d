//! Names derived from account, role and identity names: profile names and
//! session names that are safe in a configuration file.

use vstd::prelude::*;

use crate::config::SsoIdentity;
use crate::model::RoleChoice;
use crate::text::{chars_of, is_alnum, is_ascii_alphanumeric, string_from_chars, trim_char, trim_matches_char};

verus! {

/// Characters kept as they are in a profile component; all others become `-`.
pub open spec fn profile_char(c: char) -> char {
    if is_alnum(c) || c == '-' || c == '_' {
        c
    } else {
        '-'
    }
}

pub open spec fn profile_chars(s: Seq<char>) -> Seq<char> {
    s.map_values(|c: char| profile_char(c))
}

/// `s` with every run of dashes shortened to one dash.
pub open spec fn collapse_dashes(s: Seq<char>) -> Seq<char>
    decreases s.len(),
{
    if s.len() == 0 {
        s
    } else {
        let t = collapse_dashes(s.drop_last());
        if s.last() == '-' && t.len() > 0 && t.last() == '-' {
            t
        } else {
            t.push(s.last())
        }
    }
}

/// A profile component: unsafe characters become dashes, runs of dashes
/// become one, dashes at either end go, and an empty result is `role`.
pub open spec fn sanitized_of(s: Seq<char>) -> Seq<char> {
    let t = trim_char(collapse_dashes(profile_chars(s)), '-');
    if t.len() == 0 {
        "role"@
    } else {
        t
    }
}

pub fn sanitize_component(value: &str) -> (r: String)
    ensures
        r@ == sanitized_of(value@),
{
    let v = chars_of(value);
    let mut out: Vec<char> = Vec::new();
    let mut i: usize = 0;
    while i < v.len()
        invariant
            v@ == value@,
            i <= v@.len(),
            out@ == collapse_dashes(profile_chars(v@.subrange(0, i as int))),
        decreases v@.len() - i,
    {
        let ch = v[i];
        let m = if is_ascii_alphanumeric(ch) || ch == '-' || ch == '_' {
            ch
        } else {
            '-'
        };
        proof {
            assert(profile_chars(v@.subrange(0, i + 1)) =~= profile_chars(v@.subrange(0, i as int)).push(m));
            assert(profile_chars(v@.subrange(0, i + 1)).drop_last() =~= profile_chars(v@.subrange(0, i as int)));
        }
        if !(m == '-' && out.len() > 0 && out[out.len() - 1] == '-') {
            out.push(m);
        }
        i += 1;
    }
    assert(v@.subrange(0, v@.len() as int) =~= v@);
    let trimmed = trim_matches_char(&out, '-');
    if trimmed.len() == 0 {
        proof {
            reveal_strlit("role");
        }
        String::from_str("role")
    } else {
        string_from_chars(&trimmed)
    }
}

/// `account` or `account/role`, each part sanitized.
pub open spec fn profile_name_of(choice: RoleChoice, omit_role_name: bool) -> Seq<char> {
    if omit_role_name {
        sanitized_of(choice.account_name@)
    } else {
        sanitized_of(choice.account_name@) + "/"@ + sanitized_of(choice.role_name@)
    }
}

/// The profile name for a choice; the role is left out for accounts that
/// have a single role.
pub fn profile_name_for(choice: &RoleChoice, omit_role_name: bool) -> (r: String)
    ensures
        r@ == profile_name_of(*choice, omit_role_name),
{
    let mut account = sanitize_component(choice.account_name.as_str());
    if omit_role_name {
        return account;
    }
    let role = sanitize_component(choice.role_name.as_str());
    account.append("/");
    account.append(role.as_str());
    account
}

/// The session name of an identity: `roleman-` and its sanitized name.
pub fn sso_session_name(identity: &SsoIdentity) -> (r: String)
    ensures
        r@ == "roleman-"@ + sanitized_of(identity.name@),
{
    let mut s = String::from_str("roleman-");
    let name = sanitize_component(identity.name.as_str());
    s.append(name.as_str());
    s
}

} // verus!
