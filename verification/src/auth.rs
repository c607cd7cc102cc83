//! The claims of an authenticated user, and who counts as an administrator.

use vstd::prelude::*;
use vstd::string::*;
use crate::text::same_text;

verus! {

/// The claims that the identity provider makes of a user.
#[derive(Debug, PartialEq, Eq)]
pub struct AuthClaims {
    pub iss: String,
    pub sub: String,
    pub aud: String,
    pub exp: i64,
    pub iat: i64,
    pub auth_time: i64,
    pub acr: String,
    pub email: String,
    pub email_verified: bool,
    pub name: String,
    pub given_name: String,
    pub preferred_username: String,
    pub nickname: String,
    pub groups: Vec<String>,
}

/// The group whose members are administrators.
pub open spec fn admin_group() -> Seq<char> {
    "O-Quest Admin"@
}

/// `groups` names the group `group`.
pub open spec fn names_group(groups: Seq<String>, group: Seq<char>) -> bool {
    exists|i: int| 0 <= i < groups.len() && (#[trigger] groups[i])@ == group
}

/// Whether `groups` names the group `group`.
pub fn in_group(groups: &Vec<String>, group: &str) -> (member: bool)
    ensures
        member == names_group(groups@, group@),
{
    let mut i: usize = 0;
    while i < groups.len()
        invariant
            i <= groups@.len(),
            forall|j: int| 0 <= j < i ==> (#[trigger] groups@[j])@ != group@,
        decreases groups@.len() - i,
    {
        if same_text(groups[i].as_str(), group) {
            return true;
        }
        i = i + 1;
    }
    false
}

/// Whether a user is an administrator: the store flags them, or their
/// claims name the administrators' group.
pub fn require_admin(has_admin_flag: bool, claims: &AuthClaims) -> (allowed: bool)
    ensures
        allowed == (has_admin_flag || names_group(claims.groups@, admin_group())),
{
    has_admin_flag || in_group(&claims.groups, "O-Quest Admin")
}

/// The claims of the one user of a development setup, who is an
/// administrator.
pub fn dev_claims(issuer: String, client_id: String) -> (claims: AuthClaims)
    ensures
        claims.iss == issuer,
        claims.aud == client_id,
        claims.sub@ == "devuser"@,
        claims.exp == 9999999999,
        claims.iat == 1600000000,
        claims.auth_time == 1600000000,
        claims.acr@ == "1"@,
        claims.email@ == "dev@example.com"@,
        claims.email_verified,
        claims.name@ == "Dev User"@,
        claims.given_name@ == "Dev User"@,
        claims.preferred_username@ == "devuser"@,
        claims.nickname@ == "devuser"@,
        claims.groups@.len() == 1,
        claims.groups@[0]@ == admin_group(),
{
    let mut groups: Vec<String> = Vec::new();
    groups.push(String::from_str("O-Quest Admin"));
    assert(groups@[0]@ == admin_group());
    AuthClaims {
        iss: issuer,
        sub: String::from_str("devuser"),
        aud: client_id,
        exp: 9999999999,
        iat: 1600000000,
        auth_time: 1600000000,
        acr: String::from_str("1"),
        email: String::from_str("dev@example.com"),
        email_verified: true,
        name: String::from_str("Dev User"),
        given_name: String::from_str("Dev User"),
        preferred_username: String::from_str("devuser"),
        nickname: String::from_str("devuser"),
        groups,
    }
}

} // verus!
