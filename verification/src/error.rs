//! Typed errors surfaced to the frontend. `code` mirrors the Agents API error
//! envelope codes so the UI can degrade per feature.
use vstd::prelude::*;

use crate::text::{concat, owned, str_eq};

verus! {

/// An error of the app, with the message shown to the user.
#[derive(Debug, Clone)]
pub enum AppError {
    NoKey,
    Unauthorized(String),
    ForbiddenRole(String),
    ForbiddenScope(String),
    ForbiddenApiGroup(String),
    RateLimited(String),
    NotFound(String),
    /// The write guardrail rejected a mutation: no token, an unknown, expired
    /// or already consumed token, or a payload that differs from the one
    /// that was confirmed.
    ConfirmationRequired(String),
    /// A bulk mutation's selection exceeds the per-call ceiling.
    CeilingExceeded(String),
    /// Client-side request timeout (generation calls only).
    Timeout(String),
    Network(String),
    Keychain(String),
    Db(String),
    Other(String),
}

pub type AppResult<T> = Result<T, AppError>;

/// The stable snake_case code of each variant.
pub open spec fn code_spec(e: AppError) -> Seq<char> {
    match e {
        AppError::NoKey => "no_key"@,
        AppError::Unauthorized(_) => "unauthorized"@,
        AppError::ForbiddenRole(_) => "forbidden_role"@,
        AppError::ForbiddenScope(_) => "forbidden_scope"@,
        AppError::ForbiddenApiGroup(_) => "forbidden_api_group"@,
        AppError::RateLimited(_) => "rate_limited"@,
        AppError::NotFound(_) => "not_found"@,
        AppError::ConfirmationRequired(_) => "confirmation_required"@,
        AppError::CeilingExceeded(_) => "ceiling_exceeded"@,
        AppError::Timeout(_) => "timeout"@,
        AppError::Network(_) => "network"@,
        AppError::Keychain(_) => "keychain"@,
        AppError::Db(_) => "db"@,
        AppError::Other(_) => "other"@,
    }
}

/// The API envelope codes that map to a dedicated variant.
pub open spec fn is_api_code(code: Seq<char>) -> bool {
    ||| code == "forbidden_role"@
    ||| code == "forbidden_scope"@
    ||| code == "forbidden_api_group"@
    ||| code == "rate_limited"@
    ||| code == "not_found"@
    ||| code == "unauthorized"@
    ||| code == "invalid_api_key"@
    ||| code == "confirmation_required"@
    ||| code == "ceiling_exceeded"@
}

/// The variant an API envelope code maps to (for the codes of `is_api_code`).
pub open spec fn api_error(code: Seq<char>, message: String) -> AppError {
    if code == "forbidden_role"@ {
        AppError::ForbiddenRole(message)
    } else if code == "forbidden_scope"@ {
        AppError::ForbiddenScope(message)
    } else if code == "forbidden_api_group"@ {
        AppError::ForbiddenApiGroup(message)
    } else if code == "rate_limited"@ {
        AppError::RateLimited(message)
    } else if code == "not_found"@ {
        AppError::NotFound(message)
    } else if code == "unauthorized"@ || code == "invalid_api_key"@ {
        AppError::Unauthorized(message)
    } else if code == "confirmation_required"@ {
        AppError::ConfirmationRequired(message)
    } else {
        AppError::CeilingExceeded(message)
    }
}

/// The code an API envelope code stands for (`invalid_api_key` is reported
/// as `unauthorized`).
pub open spec fn canonical_code(code: Seq<char>) -> Seq<char> {
    if code == "invalid_api_key"@ {
        "unauthorized"@
    } else {
        code
    }
}

/// `e` is what `from_api_code(code, message)` yields: the dedicated variant
/// for a known code, carrying `message`; otherwise `Other("{code}: {message}")`.
pub open spec fn from_api_code_spec(code: Seq<char>, message: Seq<char>, e: AppError) -> bool {
    if is_api_code(code) {
        code_spec(e) == canonical_code(code) && display_spec(e) == message
    } else {
        e is Other && display_spec(e) == code + ": "@ + message
    }
}

proof fn lemma_api_error_code(code: Seq<char>, message: String)
    ensures
        is_api_code(code) ==> code_spec(api_error(code, message)) == canonical_code(code)
            && display_spec(api_error(code, message)) == message@,
{
    reveal_strlit("forbidden_role");
    reveal_strlit("forbidden_scope");
    reveal_strlit("forbidden_api_group");
    reveal_strlit("rate_limited");
    reveal_strlit("not_found");
    reveal_strlit("unauthorized");
    reveal_strlit("invalid_api_key");
    reveal_strlit("confirmation_required");
    reveal_strlit("ceiling_exceeded");
    assert("invalid_api_key"@.len() == 15);
    assert("invalid_api_key"@[0] == 'i');
    assert("forbidden_scope"@[0] == 'f');
    assert("forbidden_role"@.len() == 14);
    assert("forbidden_api_group"@.len() == 19);
    assert("rate_limited"@.len() == 12);
    assert("not_found"@.len() == 9);
    assert("unauthorized"@.len() == 12);
    assert("confirmation_required"@.len() == 21);
    assert("ceiling_exceeded"@.len() == 16);
}

/// The feature behind the endpoint is unavailable to this caller.
pub open spec fn is_capability_block_spec(e: AppError) -> bool {
    ||| e is ForbiddenApiGroup
    ||| e is ForbiddenScope
    ||| e is ForbiddenRole
}

/// The text the error displays: a fixed sentence for `NoKey`, the carried
/// message otherwise.
pub open spec fn display_spec(e: AppError) -> Seq<char> {
    match e {
        AppError::NoKey => "no API key stored"@,
        AppError::Unauthorized(m) => m@,
        AppError::ForbiddenRole(m) => m@,
        AppError::ForbiddenScope(m) => m@,
        AppError::ForbiddenApiGroup(m) => m@,
        AppError::RateLimited(m) => m@,
        AppError::NotFound(m) => m@,
        AppError::ConfirmationRequired(m) => m@,
        AppError::CeilingExceeded(m) => m@,
        AppError::Timeout(m) => m@,
        AppError::Network(m) => m@,
        AppError::Keychain(m) => m@,
        AppError::Db(m) => m@,
        AppError::Other(m) => m@,
    }
}

impl AppError {
    /// Maps an API envelope `error.code` string to a typed variant; an
    /// unknown code becomes `Other("{code}: {message}")`.
    pub fn from_api_code(code: &str, message: String) -> (r: AppError)
        ensures
            is_api_code(code@) ==> r == api_error(code@, message),
            !is_api_code(code@) ==> (r matches AppError::Other(m) && m@ == code@ + ": "@ + message@),
            from_api_code_spec(code@, message@, r),
    {
        proof {
            lemma_api_error_code(code@, message);
        }
        if str_eq(code, "forbidden_role") {
            AppError::ForbiddenRole(message)
        } else if str_eq(code, "forbidden_scope") {
            AppError::ForbiddenScope(message)
        } else if str_eq(code, "forbidden_api_group") {
            AppError::ForbiddenApiGroup(message)
        } else if str_eq(code, "rate_limited") {
            AppError::RateLimited(message)
        } else if str_eq(code, "not_found") {
            AppError::NotFound(message)
        } else if str_eq(code, "unauthorized") || str_eq(code, "invalid_api_key") {
            AppError::Unauthorized(message)
        } else if str_eq(code, "confirmation_required") {
            AppError::ConfirmationRequired(message)
        } else if str_eq(code, "ceiling_exceeded") {
            AppError::CeilingExceeded(message)
        } else {
            let head = concat(code, ": ");
            let text = concat(head.as_str(), message.as_str());
            AppError::Other(text)
        }
    }

    /// Stable snake_case code for this variant, mirroring the API envelope.
    pub fn code(&self) -> (r: &'static str)
        ensures
            r@ == code_spec(*self),
    {
        match self {
            AppError::NoKey => "no_key",
            AppError::Unauthorized(_) => "unauthorized",
            AppError::ForbiddenRole(_) => "forbidden_role",
            AppError::ForbiddenScope(_) => "forbidden_scope",
            AppError::ForbiddenApiGroup(_) => "forbidden_api_group",
            AppError::RateLimited(_) => "rate_limited",
            AppError::NotFound(_) => "not_found",
            AppError::ConfirmationRequired(_) => "confirmation_required",
            AppError::CeilingExceeded(_) => "ceiling_exceeded",
            AppError::Timeout(_) => "timeout",
            AppError::Network(_) => "network",
            AppError::Keychain(_) => "keychain",
            AppError::Db(_) => "db",
            AppError::Other(_) => "other",
        }
    }

    /// True when the feature behind this endpoint is unavailable for this
    /// caller and further polling should stop.
    pub fn is_capability_block(&self) -> (r: bool)
        ensures
            r == is_capability_block_spec(*self),
    {
        match self {
            AppError::ForbiddenApiGroup(_) | AppError::ForbiddenScope(_)
            | AppError::ForbiddenRole(_) => true,
            _ => false,
        }
    }

    /// The text of the error, as its `Display` renders it.
    pub fn to_text(&self) -> (r: String)
        ensures
            r@ == display_spec(*self),
    {
        match self {
            AppError::NoKey => owned("no API key stored"),
            AppError::Unauthorized(m) => m.clone(),
            AppError::ForbiddenRole(m) => m.clone(),
            AppError::ForbiddenScope(m) => m.clone(),
            AppError::ForbiddenApiGroup(m) => m.clone(),
            AppError::RateLimited(m) => m.clone(),
            AppError::NotFound(m) => m.clone(),
            AppError::ConfirmationRequired(m) => m.clone(),
            AppError::CeilingExceeded(m) => m.clone(),
            AppError::Timeout(m) => m.clone(),
            AppError::Network(m) => m.clone(),
            AppError::Keychain(m) => m.clone(),
            AppError::Db(m) => m.clone(),
            AppError::Other(m) => m.clone(),
        }
    }
}

/// The error a failed HTTP exchange becomes: `Timeout` when the client gave
/// up waiting, `Network` for any other transport failure; either carries the
/// failure's text.
pub fn transport_error(timed_out: bool, text: String) -> (r: AppError)
    ensures
        timed_out ==> r == AppError::Timeout(text),
        !timed_out ==> r == AppError::Network(text),
{
    if timed_out {
        AppError::Timeout(text)
    } else {
        AppError::Network(text)
    }
}

/// Mapping a code back through `from_api_code` preserves it: for every error
/// whose code the API can send, `from_api_code(e.code(), m)` yields an error
/// with the same code that carries `m`.
pub proof fn lemma_api_code_round_trip(e: AppError, message: String)
    requires
        is_api_code(code_spec(e)),
    ensures
        code_spec(api_error(code_spec(e), message)) == code_spec(e),
        display_spec(api_error(code_spec(e), message)) == message@,
{
    reveal_strlit("forbidden_role");
    reveal_strlit("forbidden_scope");
    reveal_strlit("forbidden_api_group");
    reveal_strlit("rate_limited");
    reveal_strlit("not_found");
    reveal_strlit("unauthorized");
    reveal_strlit("invalid_api_key");
    reveal_strlit("confirmation_required");
    reveal_strlit("ceiling_exceeded");
    reveal_strlit("no_key");
    reveal_strlit("timeout");
    reveal_strlit("network");
    reveal_strlit("keychain");
    reveal_strlit("db");
    reveal_strlit("other");
}

/// Exactly the three forbidden variants are capability blocks, and they are
/// recognised by their codes.
pub proof fn lemma_capability_block_codes(e: AppError)
    ensures
        is_capability_block_spec(e) <==> (code_spec(e) == "forbidden_api_group"@ || code_spec(e)
            == "forbidden_scope"@ || code_spec(e) == "forbidden_role"@),
{
    reveal_strlit("forbidden_role");
    reveal_strlit("forbidden_scope");
    reveal_strlit("forbidden_api_group");
    reveal_strlit("rate_limited");
    reveal_strlit("not_found");
    reveal_strlit("unauthorized");
    reveal_strlit("confirmation_required");
    reveal_strlit("ceiling_exceeded");
    reveal_strlit("no_key");
    reveal_strlit("timeout");
    reveal_strlit("network");
    reveal_strlit("keychain");
    reveal_strlit("db");
    reveal_strlit("other");
    match e {
        AppError::ForbiddenRole(_) => {},
        AppError::ForbiddenScope(_) => {},
        AppError::ForbiddenApiGroup(_) => {},
        _ => {
            assert("forbidden_api_group"@.len() == 19);
            assert("forbidden_scope"@.len() == 15);
            assert("forbidden_role"@.len() == 14);
            assert(code_spec(e).len() != 19 && code_spec(e).len() != 15 && code_spec(e).len()
                != 14);
        },
    }
}

} // verus!
