//! Access tokens: where one is kept, how one is made, and when a presented
//! token is accepted.

use rand::Rng;
use vstd::prelude::*;
use vstd::string::*;
use crate::hex::{encode, hex_chars};
use crate::paths::{join, join_path, opt_text, same_text};

verus! {

/// Where the token is kept and whether callers have to present it.
#[derive(Debug, Clone)]
pub struct AuthConfig {
    pub token_path: String,
    pub require_auth: bool,
}

impl AuthConfig {
    /// The default configuration for a user whose home directory is `home`:
    /// the token in `.claude_utils/auth.token` below it (below the current
    /// directory when no home is known), and authentication required.
    pub fn with_home(home: Option<&str>) -> (config: Self)
        ensures
            config.token_path@ == join_path(
                join_path(
                    crate::clipboard::processor::home_or_here(
                        crate::clipboard::processor::opt_str(home),
                    ),
                    ".claude_utils"@,
                ),
                "auth.token"@,
            ),
            config.require_auth,
    {
        proof {
            reveal_strlit(".");
        }
        let base = match home {
            Some(h) => h,
            None => ".",
        };
        assert(base@ =~= crate::clipboard::processor::home_or_here(
            crate::clipboard::processor::opt_str(home),
        ));
        let dir = join(base, ".claude_utils");
        AuthConfig { token_path: join(dir.as_str(), "auth.token"), require_auth: true }
    }
}

/// Calls `rand::thread_rng` and draws 32 bytes with `Rng::gen`. The bytes
/// are random; the contract claims only how many there are.
#[verifier::external_body]
fn random_bytes() -> (bytes: Vec<u8>)
    ensures
        bytes@.len() == 32,
{
    let mut rng = rand::thread_rng();
    (0..32).map(|_| rng.gen()).collect()
}

/// Calls `str::trim`. The result is the text without the white space at
/// its ends; the contract claims only that it is a piece of the text.
#[verifier::external_body]
fn trim_text(text: &str) -> (trimmed: &str)
    ensures
        is_piece_of(trimmed@, text@),
{
    text.trim()
}

/// Whether `piece` is a run of consecutive characters of `text`.
pub open spec fn is_piece_of(piece: Seq<char>, text: Seq<char>) -> bool {
    exists|i: int, j: int| 0 <= i <= j <= text.len() && #[trigger] text.subrange(i, j) == piece
}

/// Holds the token that callers have to present.
#[derive(Debug)]
pub struct AuthManager {
    config: AuthConfig,
    token: Option<String>,
}

impl AuthManager {
    /// The manager's configuration.
    pub closed spec fn config(&self) -> AuthConfig {
        self.config
    }

    /// The token in force, if any.
    pub closed spec fn token(&self) -> Option<Seq<char>> {
        opt_text(self.token)
    }

    /// Sets a manager up. `stored` is the content of the token file if
    /// there is one. Without authentication no token is in force. Else the
    /// stored token is taken, without the white space around it; where none
    /// is stored a new one is made, and the second result says that it has
    /// to be saved.
    pub fn new(config: AuthConfig, stored: Option<&str>) -> (result: (Self, bool))
        ensures
            result.0.config() == config,
            !config.require_auth ==> result.0.token().is_none() && !result.1,
            config.require_auth ==> result.0.token().is_some() && result.1 == stored.is_none(),
            config.require_auth && stored.is_none() ==> is_token(result.0.token().unwrap()),
            config.require_auth && stored.is_some() ==> is_piece_of(
                result.0.token().unwrap(),
                stored.unwrap()@,
            ),
    {
        if !config.require_auth {
            return (AuthManager::with_token(config, None), false);
        }
        match stored {
            Some(text) => {
                let token = String::from_str(trim_text(text));
                (AuthManager::with_token(config, Some(token)), false)
            },
            None => {
                let token = generate_token();
                (AuthManager::with_token(config, Some(token)), true)
            },
        }
    }

    /// A manager with the given token in force, or none without
    /// authentication.
    pub fn with_token(config: AuthConfig, token: Option<String>) -> (manager: Self)
        ensures
            manager.config() == config,
            manager.token() == if config.require_auth {
                opt_text(token)
            } else {
                None
            },
    {
        if config.require_auth {
            AuthManager { config, token }
        } else {
            AuthManager { config, token: None }
        }
    }

    /// Whether a caller who presents `provided_token` is let in: always
    /// without authentication, else only with the token in force.
    pub fn validate_token(&self, provided_token: Option<&str>) -> (accepted: bool)
        ensures
            accepted == accepts(
                self.config().require_auth,
                self.token(),
                crate::clipboard::processor::opt_str(provided_token),
            ),
    {
        if !self.config.require_auth {
            return true;
        }
        match (&self.token, provided_token) {
            (Some(stored), Some(provided)) => same_text(stored.as_str(), provided),
            _ => false,
        }
    }

    /// The token in force, if any.
    pub fn get_token(&self) -> (token: Option<String>)
        ensures
            opt_text(token) == self.token(),
    {
        match &self.token {
            Some(t) => Some(t.clone()),
            None => None,
        }
    }
}

/// When a presented token is accepted.
pub open spec fn accepts(require_auth: bool, token: Option<Seq<char>>, provided: Option<Seq<char>>) -> bool {
    !require_auth || (token.is_some() && provided.is_some() && token.unwrap() == provided.unwrap())
}

/// A token is the hexadecimal text of 32 bytes.
pub open spec fn is_token(text: Seq<char>) -> bool {
    exists|bytes: Seq<u8>| bytes.len() == 32 && #[trigger] hex_chars(bytes) == text
}

/// Makes a new random token.
pub fn generate_token() -> (token: String)
    ensures
        is_token(token@),
        token@.len() == 64,
{
    let bytes = random_bytes();
    let ghost drawn = bytes@;
    let token = encode(bytes);
    assert(hex_chars(drawn) == token@);
    token
}

} // verus!
