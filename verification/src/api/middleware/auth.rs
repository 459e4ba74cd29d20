//! Authentication by API key: the bearer token of the Authorization header
//! is hashed and looked up among the active keys.
use vstd::prelude::*;
use vstd::string::*;
use crate::models::api_key::{key_digest, ApiKey};

verus! {

/// The token of a header that uses the Bearer scheme: what follows
/// "Bearer ".
pub open spec fn bearer_token(header: Seq<char>) -> Option<Seq<char>> {
    if header.len() >= 7 && header.subrange(0, 7) == "Bearer "@ {
        Some(header.subrange(7, header.len() as int))
    } else {
        None
    }
}

/// The token is everything after the scheme: a header "Bearer " followed by
/// any text, of any length, carries exactly that text; a header that does
/// not start with "Bearer " carries none.
pub proof fn law_bearer_token_is_the_rest(token: Seq<char>, header: Seq<char>)
    ensures
        bearer_token("Bearer "@ + token) == Some(token),
        !(header.len() >= 7 && header.take(7) == "Bearer "@) ==> bearer_token(header) is None,
{
    reveal_strlit("Bearer ");
    let header_of = "Bearer "@ + token;
    assert(header_of.subrange(0, 7) =~= "Bearer "@);
    assert(header_of.subrange(7, header_of.len() as int) =~= token);
    assert(header.len() >= 7 ==> header.take(7) =~= header.subrange(0, 7));
}

/// The token of an Authorization header that uses the Bearer scheme.
fn strip_bearer(header: &str) -> (token: Option<&str>)
    ensures
        match token {
            Some(t) => bearer_token(header@) == Some(t@),
            None => bearer_token(header@) is None,
        },
{
    let length = header.unicode_len();
    if length < 7 {
        return None;
    }
    let scheme = String::from_str(header.substring_char(0, 7));
    if scheme == String::from_str("Bearer ") {
        Some(header.substring_char(7, length))
    } else {
        None
    }
}

/// Get the bearer token from an optional Authorization header (for public
/// endpoints that optionally use auth).
pub fn extract_api_key_header(authorization: Option<&str>) -> (token: Option<String>)
    ensures
        match authorization {
            None => token is None,
            Some(header) => match bearer_token(header@) {
                Some(t) => token matches Some(s) && s@ == t,
                None => token is None,
            },
        },
{
    match authorization {
        None => None,
        Some(header) => match strip_bearer(header) {
            Some(t) => Some(String::from_str(t)),
            None => None,
        },
    }
}

/// The authenticated caller: its API key.
#[derive(Debug, Clone)]
pub struct ApiKeyAuth {
    pub api_key: ApiKey,
}

/// Why a request is not authenticated.
#[derive(Clone, Copy, Debug, PartialEq, Eq, Structural)]
pub enum AuthRejection {
    /// The store is not configured.
    PoolMissing,
    /// No Authorization header (or one that is not visible ASCII).
    MissingHeader,
    /// The header does not use the Bearer scheme.
    InvalidScheme,
    /// The store failed while looking up the key.
    LookupFailed,
    /// No active key has the token's hash.
    InvalidKey,
}

/// The body of a refusal.
pub struct AuthErrorResponse {
    pub error: AuthError,
}

pub struct AuthError {
    pub code: String,
    pub message: String,
}

impl AuthRejection {
    /// The HTTP status: 500 when the service failed, 401 otherwise.
    pub open spec fn status(self) -> u16 {
        match self {
            AuthRejection::PoolMissing => 500,
            AuthRejection::LookupFailed => 500,
            _ => 401,
        }
    }

    /// The machine-readable code: a missing or malformed Authorization
    /// header is unauthorized, an unknown key an invalid key.
    pub open spec fn code(self) -> Seq<char> {
        match self {
            AuthRejection::PoolMissing => "internal_error"@,
            AuthRejection::MissingHeader => "unauthorized"@,
            AuthRejection::InvalidScheme => "unauthorized"@,
            AuthRejection::LookupFailed => "internal_error"@,
            AuthRejection::InvalidKey => "invalid_api_key"@,
        }
    }

    pub open spec fn message(self) -> Seq<char> {
        match self {
            AuthRejection::PoolMissing => "Database pool not configured"@,
            AuthRejection::MissingHeader => "Missing Authorization header"@,
            AuthRejection::InvalidScheme => "Authorization header must use Bearer scheme"@,
            AuthRejection::LookupFailed => "Authentication failed"@,
            AuthRejection::InvalidKey => "Invalid or inactive API key"@,
        }
    }

    /// The answer to a refused request: its status and body.
    pub fn into_response(self) -> (answer: (u16, AuthErrorResponse))
        ensures
            answer.0 == self.status(),
            answer.1.error.code@ == self.code(),
            answer.1.error.message@ == self.message(),
    {
        let (status, code, message) = match self {
            AuthRejection::PoolMissing => (500, "internal_error", "Database pool not configured"),
            AuthRejection::MissingHeader => (401, "unauthorized", "Missing Authorization header"),
            AuthRejection::InvalidScheme => (401, "unauthorized", "Authorization header must use Bearer scheme"),
            AuthRejection::LookupFailed => (500, "internal_error", "Authentication failed"),
            AuthRejection::InvalidKey => (401, "invalid_api_key", "Invalid or inactive API key"),
        };
        (
            status,
            AuthErrorResponse {
                error: AuthError { code: String::from_str(code), message: String::from_str(message) },
            },
        )
    }
}

impl ApiKeyAuth {
    /// The first half of authentication: the hash to look up, from the
    /// Authorization header. A missing header and a header without the
    /// Bearer scheme are refused.
    pub fn key_hash_for(authorization: Option<&str>) -> (hash: Result<String, AuthRejection>)
        ensures
            match authorization {
                None => hash == Err::<String, AuthRejection>(AuthRejection::MissingHeader),
                Some(header) => match bearer_token(header@) {
                    None => hash == Err::<String, AuthRejection>(AuthRejection::InvalidScheme),
                    Some(token) => hash matches Ok(h) && h@ == key_digest(token),
                },
            },
            (authorization matches Some(header) && header@.len() >= 7 && header@.take(7) == "Bearer "@)
                ==> (hash matches Ok(h) && h@ == key_digest(authorization->0@.skip(7))),
    {
        match authorization {
            None => Err(AuthRejection::MissingHeader),
            Some(header) => match strip_bearer(header) {
                None => Err(AuthRejection::InvalidScheme),
                Some(token) => Ok(ApiKey::hash_key(token)),
            },
        }
    }

    /// The second half: the result of looking up the hash among the active
    /// keys. A failed lookup and an unknown key are refused.
    pub fn from_lookup(found: Result<Option<ApiKey>, String>) -> (auth: Result<ApiKeyAuth, AuthRejection>)
        ensures
            match found {
                Err(_) => auth == Err::<ApiKeyAuth, AuthRejection>(AuthRejection::LookupFailed),
                Ok(None) => auth == Err::<ApiKeyAuth, AuthRejection>(AuthRejection::InvalidKey),
                Ok(Some(key)) => auth == Ok::<ApiKeyAuth, AuthRejection>(ApiKeyAuth { api_key: key }),
            },
    {
        match found {
            Err(_) => Err(AuthRejection::LookupFailed),
            Ok(None) => Err(AuthRejection::InvalidKey),
            Ok(Some(key)) => Ok(ApiKeyAuth { api_key: key }),
        }
    }
}

} // verus!
