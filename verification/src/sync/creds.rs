//! Sync credentials: where they are stored, and which one a git
//! authentication request gets.

use vstd::prelude::*;

use crate::chars::concat_str;

use super::AuthMode;

verus! {

/// A secret string; its debug text never shows it.
#[derive(Clone, PartialEq, Eq)]
pub struct Secret(String);

impl Secret {
    /// Wraps `value`.
    pub fn new(value: String) -> (r: Self)
        ensures
            r.spec_value() == value,
    {
        Secret(value)
    }

    /// The secret.
    pub closed spec fn spec_value(&self) -> String {
        self.0
    }

    /// The secret text.
    pub fn expose(&self) -> (r: &str)
        ensures
            r@ == self.spec_value()@,
    {
        self.0.as_str()
    }

    /// What debug output shows for a secret.
    pub fn debug_text(&self) -> (r: String)
        ensures
            r@ == "<redacted>"@,
    {
        String::from_str("<redacted>")
    }
}

/// A stored credential.
#[derive(Clone, PartialEq, Eq)]
pub struct SyncCredential {
    pub username: String,
    pub secret: Secret,
}

/// The platform store of sync credentials.
pub trait CredentialStore: Send + Sync {
    fn read(&self, key: &str) -> Result<Option<SyncCredential>, String>;

    fn write(&self, key: &str, credential: &SyncCredential) -> Result<(), String>;

    fn delete(&self, key: &str) -> Result<(), String>;
}

/// The store key of the credential for `host`.
pub fn credential_key(host: &str) -> (r: String)
    ensures
        r@ == "openmacro/sync/"@ + host@,
{
    concat_str("openmacro/sync/", host)
}

/// The credential handed to git.
#[derive(Debug, Clone, PartialEq, Eq)]
pub enum CredentialChoice {
    /// User name and password (the personal access token).
    UserPass { username: String, password: String },
    /// A key from the SSH agent, for this user.
    SshAgent { username: String },
}

/// What git gets when it asks for a credential: for a token remote, the
/// stored credential of its host (its user name, or the one from the URL, or
/// the configured one, when the stored one is empty); for SSH, the agent's
/// key for the URL's user or `git`. The store's answer `stored` is looked up
/// by the caller under `credential_key(host)`.
pub fn choose_credential(
    auth: &AuthMode,
    username_from_url: Option<String>,
    userpass_allowed: bool,
    ssh_key_allowed: bool,
    stored: Result<Option<SyncCredential>, String>,
) -> (r: Result<CredentialChoice, String>)
    ensures
        match auth {
            AuthMode::HttpsPat { host, username } => if !userpass_allowed {
                r matches Err(m) && m@ == "https credentials not allowed"@
            } else {
                match stored {
                    Err(e) => r == Err::<CredentialChoice, String>(e),
                    Ok(None) => r matches Err(m) && m@ == "missing https credential"@,
                    Ok(Some(c)) => r matches Ok(CredentialChoice::UserPass { username: u, password: p })
                        && p@ == c.secret.spec_value()@ && u@ == (if c.username@.len() > 0 {
                        c.username@
                    } else {
                        match username_from_url {
                            Some(n) => n@,
                            None => username@,
                        }
                    }),
                }
            },
            AuthMode::Ssh => if !ssh_key_allowed {
                r matches Err(m) && m@ == "ssh credentials not allowed"@
            } else {
                r matches Ok(CredentialChoice::SshAgent { username: u }) && u@ == match username_from_url {
                    Some(n) => n@,
                    None => "git"@,
                }
            },
        },
{
    match auth {
        AuthMode::HttpsPat { host: _, username } => {
            if !userpass_allowed {
                return Err(String::from_str("https credentials not allowed"));
            }
            let credential = match stored {
                Err(e) => return Err(e),
                Ok(None) => return Err(String::from_str("missing https credential")),
                Ok(Some(c)) => c,
            };
            let user = if !credential.username.as_str().is_empty() {
                credential.username.clone()
            } else {
                match username_from_url {
                    Some(n) => n,
                    None => username.clone(),
                }
            };
            let password = String::from_str(credential.secret.expose());
            Ok(CredentialChoice::UserPass { username: user, password })
        },
        AuthMode::Ssh => {
            if !ssh_key_allowed {
                return Err(String::from_str("ssh credentials not allowed"));
            }
            let user = match username_from_url {
                Some(n) => n,
                None => String::from_str("git"),
            };
            Ok(CredentialChoice::SshAgent { username: user })
        },
    }
}

/// Stores the token for a token remote when one is given; anything else
/// stores nothing and succeeds. A failed write is passed on.
pub fn maybe_store_pat<C: CredentialStore>(store: &C, auth: &AuthMode, pat: Option<String>) -> (r: Result<(), String>)
    ensures
        !(auth is HttpsPat && pat is Some) ==> r is Ok,
{
    match (auth, pat) {
        (AuthMode::HttpsPat { host, username }, Some(pat)) => {
            let key = credential_key(host.as_str());
            let credential = SyncCredential { username: username.clone(), secret: Secret::new(pat) };
            store.write(key.as_str(), &credential)
        },
        _ => Ok(()),
    }
}

} // verus!
