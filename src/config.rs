//! Settings read from the repository configuration. The caller reads each
//! value (absent when unset or empty) and hands it over.

use vstd::prelude::*;
use vstd::string::*;

use crate::text::same_text;

verus! {

pub open spec fn opt_view(v: Option<&str>) -> Option<Seq<char>> {
    match v {
        Some(s) => Some(s@),
        None => None,
    }
}

/// The tool counts as set up once a backend token is configured.
pub fn is_initialized(token: Option<&str>) -> (r: bool)
    ensures
        r == token is Some,
{
    token.is_some()
}

/// Whether a backend token is available.
pub fn check_github_token(token: Option<&str>) -> (r: bool)
    ensures
        r == token is Some,
{
    token.is_some()
}

/// The backend integration is on exactly when its setting reads `true`.
pub fn is_github_enabled(value: Option<&str>) -> (r: bool)
    ensures
        r == (opt_view(value) == Some("true"@)),
{
    match value {
        Some(v) => same_text(v, "true"),
        None => false,
    }
}

/// The configured base branch, `main` when none is set.
pub fn get_base_branch(value: Option<&str>) -> (r: String)
    ensures
        r@ == match value {
            Some(v) => v@,
            None => "main"@,
        },
{
    match value {
        Some(v) => String::from_str(v),
        None => String::from_str("main"),
    }
}

/// The token to use: the repository's setting, else the global setting, else
/// the environment's.
pub fn pick_github_token(
    repository: Option<String>,
    global: Option<String>,
    environment: Option<String>,
) -> (r: Option<String>)
    ensures
        r == if repository is Some {
            repository
        } else if global is Some {
            global
        } else {
            environment
        },
{
    if repository.is_some() {
        repository
    } else if global.is_some() {
        global
    } else {
        environment
    }
}

} // verus!
