//! The access check of the HTTP boundary: three key tiers, tried from the
//! strongest to the weakest that a route accepts.

use vstd::prelude::*;
use crate::error::ResponseError;
use crate::error::SResult;

verus! {

/// The privilege a route asks of its caller.
#[derive(Clone, Copy, Debug, PartialEq, Eq, Structural)]
pub enum ACL {
    Admin,
    Private,
    Public,
}

/// The configured credentials, strongest first. A tier that is not
/// configured is `None`, and no request opens it.
#[derive(Clone, Debug, PartialEq, Eq)]
pub struct ApiKeys {
    pub master: Option<String>,
    pub private: Option<String>,
    pub public: Option<String>,
}

/// The number of key tiers.
pub const TIERS: usize = 3;

/// The characters of an optional credential.
pub open spec fn key_chars(key: Option<String>) -> Option<Seq<char>> {
    match key {
        Some(k) => Some(k@),
        None => None,
    }
}

/// The characters of an optional borrowed credential.
pub open spec fn header_chars(key: Option<&str>) -> Option<Seq<char>> {
    match key {
        Some(k) => Some(k@),
        None => None,
    }
}

/// What an invalid-credential error carries when the request had no credential.
pub open spec fn missing_token() -> Seq<char> {
    "Need a token"@
}

impl ACL {
    /// How many tiers, counted from the strongest, open a route of this level.
    pub open spec fn tiers(self) -> int {
        match self {
            ACL::Admin => 1,
            ACL::Private => 2,
            ACL::Public => 3,
        }
    }

    /// How many tiers, counted from the strongest, open a route of this level.
    pub fn tier_count(self) -> (n: usize)
        ensures
            n == self.tiers(),
            1 <= n <= TIERS,
    {
        match self {
            ACL::Admin => 1,
            ACL::Private => 2,
            ACL::Public => 3,
        }
    }
}

impl ApiKeys {
    /// The credential of tier `i`: 0 is the master key, 1 the private key,
    /// 2 the public key.
    pub open spec fn tier(&self, i: int) -> Option<Seq<char>> {
        if i == 0 {
            key_chars(self.master)
        } else if i == 1 {
            key_chars(self.private)
        } else {
            key_chars(self.public)
        }
    }

    /// Whether `user` is the configured credential of one of the tiers that
    /// open `acl`. A request without a credential is granted nothing.
    pub open spec fn grants(&self, acl: ACL, user: Option<Seq<char>>) -> bool {
        user is Some && exists|i: int| 0 <= i < acl.tiers() && #[trigger] self.tier(i) == user
    }

    /// The credential of tier `i`.
    fn tier_key(&self, i: usize) -> (key: &Option<String>)
        requires
            i < TIERS,
        ensures
            key_chars(*key) == self.tier(i as int),
    {
        if i == 0 {
            &self.master
        } else if i == 1 {
            &self.private
        } else {
            &self.public
        }
    }

    /// Checks the credential of a request against the tiers that open `acl`,
    /// the master key first. The credential must be equal to a configured
    /// one: a request without a credential is turned away, whatever is
    /// configured, and the error then carries a placeholder.
    pub fn is_allowed(&self, acl: ACL, user_api_key: Option<&str>) -> (r: SResult<()>)
        ensures
            r is Ok <==> self.grants(acl, header_chars(user_api_key)),
            r matches Err(e) ==> e matches ResponseError::InvalidToken(token) && token@ == (
            match user_api_key {
                Some(k) => k@,
                None => missing_token(),
            }),
    {
        let sent = match user_api_key {
            Some(k) => k,
            None => {
                return Err(ResponseError::InvalidToken("Need a token".to_owned()));
            },
        };
        let n = acl.tier_count();
        let mut i: usize = 0;
        while i < n
            invariant
                i <= n,
                n == acl.tiers(),
                user_api_key == Some(sent),
                forall|j: int| 0 <= j < i ==> self.tier(j) != Some(sent@),
            decreases n - i,
        {
            if same_key(user_api_key, self.tier_key(i)) {
                return Ok(());
            }
            i += 1;
        }
        Err(ResponseError::InvalidToken(sent.to_owned()))
    }
}

/// Whether a credential was sent with the request and is the configured
/// one.
pub fn same_key(sent: Option<&str>, configured: &Option<String>) -> (same: bool)
    ensures
        same == (sent is Some && header_chars(sent) == key_chars(*configured)),
{
    match (sent, configured) {
        (Some(s), Some(c)) => s.to_owned() == *c,
        _ => false,
    }
}

} // verus!
