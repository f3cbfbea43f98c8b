//! The API-key check: one shared secret guards every path under one prefix.

use crate::text::{same_text, starts_with};
use vstd::prelude::*;
use vstd::string::StringExecFns;

verus! {

/// The key check's answer to one request.
#[derive(Clone, Copy, Debug, PartialEq, Eq, Structural)]
pub enum Authorization {
    Allow,
    Reject,
}

/// The prefix of the guarded paths.
pub open spec fn protected_prefix() -> Seq<char> {
    "/api/secure/"@
}

/// The secret in force when none is configured.
pub open spec fn fallback_secret() -> Seq<char> {
    "dev123"@
}

/// Whether the key check guards `path`.
pub open spec fn is_protected(path: Seq<char>) -> bool {
    protected_prefix().is_prefix_of(path)
}

/// What the request presented as its key, if anything.
pub open spec fn presented_text(presented: Option<&str>) -> Option<Seq<char>> {
    match presented {
        Some(key) => Some(key@),
        None => None,
    }
}

/// Whether a request passes: a guarded path needs the secret, presented
/// exactly; any other path passes whatever was presented.
pub open spec fn passes(secret: Seq<char>, path: Seq<char>, presented: Option<Seq<char>>) -> bool {
    is_protected(path) ==> presented == Some(secret)
}

/// The key check keeps to the guarded paths: elsewhere a request passes
/// with no key, a wrong one or the right one alike, and on a guarded path
/// it passes with the secret and with nothing else.
pub proof fn lemma_key_check_isolation(
    secret: Seq<char>,
    path: Seq<char>,
    presented: Option<Seq<char>>,
)
    ensures
        !is_protected(path) ==> passes(secret, path, presented),
        is_protected(path) ==> !passes(secret, path, None),
        is_protected(path) && presented != Some(secret) ==> !passes(secret, path, presented),
        passes(secret, path, Some(secret)),
{
}

/// The shared secret, fixed once the value exists.
pub struct AuthConfig {
    secret: String,
}

impl AuthConfig {
    /// The secret that guarded requests must present.
    pub closed spec fn secret(&self) -> Seq<char> {
        self.secret@
    }

    /// A key check that asks for `secret`.
    pub fn new(secret: String) -> (cfg: AuthConfig)
        ensures
            cfg.secret() == secret@,
    {
        AuthConfig { secret }
    }

    /// A key check that asks for the configured secret, or for the fallback
    /// where none is configured.
    pub fn from_setting(setting: Option<String>) -> (cfg: AuthConfig)
        ensures
            cfg.secret() == match setting {
                Some(secret) => secret@,
                None => fallback_secret(),
            },
    {
        match setting {
            Some(secret) => AuthConfig { secret },
            None => AuthConfig { secret: String::from_str("dev123") },
        }
    }

    /// Decides one request from its path and from the value of its key
    /// header, `None` where the header is missing or unreadable. The answer
    /// does not tell a missing key from a wrong one.
    pub fn authorize(&self, path: &str, presented: Option<&str>) -> (answer: Authorization)
        ensures
            answer == if passes(self.secret(), path@, presented_text(presented)) {
                Authorization::Allow
            } else {
                Authorization::Reject
            },
    {
        if !guards(path) {
            return Authorization::Allow;
        }
        match presented {
            Some(key) => {
                if same_text(key, self.secret.as_str()) {
                    Authorization::Allow
                } else {
                    Authorization::Reject
                }
            },
            None => Authorization::Reject,
        }
    }
}

/// Whether the key check guards `path`.
pub fn guards(path: &str) -> (guarded: bool)
    ensures
        guarded == is_protected(path@),
{
    starts_with(path, "/api/secure/")
}

} // verus!
