//! What the process does once its configuration is read: fail, stop after
//! checking it, or connect.
use vstd::prelude::*;
use crate::token::Token;

verus! {

/// Failures before the loop starts.
#[derive(Debug, Clone, Copy, PartialEq, Eq, Structural)]
pub enum StartupError {
    /// No token in the environment nor in the token file.
    ConfigError,
}

/// The decision taken at startup.
pub enum Startup {
    /// The configuration is valid; exit with success without connecting.
    CheckPassed,
    /// Connect to the portal with these settings.
    Connect { api_url: String, token: Token },
}

/// A token is required in every mode; in check mode the process stops there
/// with success, and never connects.
pub fn plan_startup(api_url: String, token: Option<Token>, check: bool) -> (r: Result<
    Startup,
    StartupError,
>)
    ensures
        token is None ==> r matches Err(StartupError::ConfigError),
        token is Some && check ==> (r matches Ok(Startup::CheckPassed)),
        token is Some && !check ==> (r matches Ok(Startup::Connect { api_url: u, token: t }) && u@
            == api_url@ && t@ == token->0@),
{
    match token {
        None => Err(StartupError::ConfigError),
        Some(t) => {
            if check {
                Ok(Startup::CheckPassed)
            } else {
                Ok(Startup::Connect { api_url, token: t })
            }
        },
    }
}

} // verus!
