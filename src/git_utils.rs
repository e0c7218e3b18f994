//! Recognising the review backend's repositories from a remote URL.

use vstd::prelude::*;
use vstd::string::*;

use crate::branch_naming::{has_no_slash, slash_count};
use crate::text::same_text;

verus! {

/// Whether `url::Url::parse` accepts this text.
pub uninterp spec fn url_parses(s: Seq<char>) -> bool;

/// The host that `url::Url::host_str` gives for this text, once parsed.
pub uninterp spec fn url_host(s: Seq<char>) -> Option<Seq<char>>;

/// The path that `url::Url::path` gives for this text, once parsed.
pub uninterp spec fn url_path(s: Seq<char>) -> Seq<char>;

/// The parts of a parsed URL that the repository check reads.
pub struct UrlParts {
    pub host: Option<String>,
    pub path: String,
}

/// Relies on `url::Url::parse`, `Url::host_str` and `Url::path`: whether the
/// text parses, and its host and path, depend on the text alone.
#[verifier::external_body]
fn url_parts(s: &str) -> (r: Option<UrlParts>)
    ensures
        r is Some == url_parses(s@),
        r matches Some(p) ==> p.path@ == url_path(s@) && match p.host {
            Some(h) => url_host(s@) == Some(h@),
            None => url_host(s@) is None,
        },
{
    match url::Url::parse(s) {
        Ok(u) => Some(UrlParts { host: u.host_str().map(|h| h.to_string()), path: u.path().to_string() }),
        Err(_) => None,
    }
}

/// Git utilities for the review backend's remotes.
pub struct GitUtils;

/// Why a remote URL names no backend repository.
#[derive(Debug, PartialEq, Eq, Structural)]
pub enum RemoteUrlError {
    /// An SSH remote whose path is not `owner/name`.
    InvalidSshFormat,
    /// The text is not a URL.
    Unparsable,
    /// The URL's host is another one.
    NotGithub,
    /// The URL's path is not `owner/name`.
    InvalidFormat,
}

pub open spec fn ssh_prefix() -> Seq<char> {
    "git@github.com:"@
}

pub open spec fn github_host() -> Seq<char> {
    "github.com"@
}

pub open spec fn git_suffix() -> Seq<char> {
    ".git"@
}

pub open spec fn starts_with(s: Seq<char>, p: Seq<char>) -> bool {
    s.len() >= p.len() && s.take(p.len() as int) == p
}

/// `s` without a final `.git`.
pub open spec fn strip_git(s: Seq<char>) -> Seq<char> {
    if s.len() >= 4 && s.skip(s.len() - 4) == git_suffix() {
        s.take(s.len() - 4)
    } else {
        s
    }
}

/// `s` without its leading slashes.
pub open spec fn trim_leading_slashes(s: Seq<char>) -> Seq<char>
    decreases s.len(),
{
    if s.len() > 0 && s[0] == '/' {
        trim_leading_slashes(s.drop_first())
    } else {
        s
    }
}

/// `owner/name`: exactly one slash.
pub open spec fn is_two_parts(p: Seq<char>) -> bool {
    slash_count(p) == 1
}

/// The repository path a remote URL names, before it is split.
pub open spec fn repo_path(url: Seq<char>) -> Result<Seq<char>, RemoteUrlError> {
    if starts_with(url, ssh_prefix()) {
        Ok(strip_git(url.skip(ssh_prefix().len() as int)))
    } else if !url_parses(url) {
        Err(RemoteUrlError::Unparsable)
    } else if url_host(url) != Some(github_host()) {
        Err(RemoteUrlError::NotGithub)
    } else {
        Ok(strip_git(trim_leading_slashes(url_path(url))))
    }
}

fn has_prefix(s: &str, p: &str) -> (r: bool)
    ensures
        r == starts_with(s@, p@),
{
    let n = s.unicode_len();
    let m = p.unicode_len();
    if n < m {
        return false;
    }
    same_text(s.substring_char(0, m), p)
}

fn strip_git_suffix(s: &str) -> (r: &str)
    ensures
        r@ == strip_git(s@),
{
    let n = s.unicode_len();
    if n >= 4 && same_text(s.substring_char(n - 4, n), ".git") {
        s.substring_char(0, n - 4)
    } else {
        s
    }
}

fn trim_slashes_front(s: &str) -> (r: &str)
    ensures
        r@ == trim_leading_slashes(s@),
{
    let n = s.unicode_len();
    let mut i: usize = 0;
    assert(s@.subrange(0, n as int) =~= s@);
    while i < n && s.get_char(i) == '/'
        invariant
            n == s@.len(),
            i <= n,
            trim_leading_slashes(s@) == trim_leading_slashes(s@.subrange(i as int, n as int)),
        decreases n - i,
    {
        assert(s@.subrange(i as int, n as int).drop_first() =~= s@.subrange(i as int + 1, n as int));
        i = i + 1;
    }
    s.substring_char(i, n)
}

/// Splits `owner/name`.
fn split_two(p: &str) -> (r: Option<(String, String)>)
    ensures
        match r {
            Some((o, n)) => is_two_parts(p@) && has_no_slash(o@) && has_no_slash(n@) && p@ == o@
                + seq!['/'] + n@,
            None => !is_two_parts(p@),
        },
{
    let n = p.unicode_len();
    let mut i: usize = 0;
    let mut slash: usize = n;
    let mut count: usize = 0;
    while i < n
        invariant
            n == p@.len(),
            i <= n,
            count == slash_count(p@.take(i as int)),
            count <= i,
            count == 0 ==> slash == n && has_no_slash(p@.take(i as int)),
            count >= 1 ==> slash < i && p@[slash as int] == '/' && has_no_slash(p@.take(slash as int)),
            count == 1 ==> has_no_slash(p@.subrange(slash as int + 1, i as int)),
        decreases n - i,
    {
        assert(p@.take(i as int + 1).drop_last() =~= p@.take(i as int));
        if p.get_char(i) == '/' {
            if count == 0 {
                slash = i;
            }
            count = count + 1;
        }
        proof {
            if count == 0 {
                assert forall|k: int| 0 <= k < i + 1 implies #[trigger] p@.take(i as int + 1)[k] != '/' by {
                    if k < i {
                        assert(p@.take(i as int)[k] == p@[k]);
                    }
                }
            }
            if count == 1 && slash < i {
                assert forall|k: int| 0 <= k < i - slash implies #[trigger] p@.subrange(slash as int + 1, i as int + 1)[k] != '/' by {
                    if k < i - slash - 1 {
                        assert(p@.subrange(slash as int + 1, i as int)[k] == p@[slash + 1 + k]);
                    }
                }
            }
            if count == 1 && slash == i {
                assert(p@.take(i as int) =~= p@.take(slash as int));
                assert(p@.subrange(slash as int + 1, i as int + 1) =~= Seq::<char>::empty());
            }
        }
        i = i + 1;
    }
    assert(p@.take(n as int) =~= p@);
    if count != 1 {
        return None;
    }
    let o = p.substring_char(0, slash);
    let rest = p.substring_char(slash + 1, n);
    assert(o@ =~= p@.take(slash as int));
    assert(p@ =~= o@ + seq!['/'] + rest@);
    Some((String::from_str(o), String::from_str(rest)))
}

impl GitUtils {
    /// Whether `url` names a repository on the backend's host: an SSH remote
    /// on it, or a URL whose host it is.
    pub fn is_github_url(url: &str) -> (r: bool)
        ensures
            r == (starts_with(url@, ssh_prefix()) || (url_parses(url@) && url_host(url@) == Some(
                github_host(),
            ))),
    {
        if has_prefix(url, "git@github.com:") {
            return true;
        }
        match url_parts(url) {
            Some(p) => match p.host {
                Some(h) => same_text(h.as_str(), "github.com"),
                None => false,
            },
            None => false,
        }
    }

    /// The owner and name of the repository a remote URL names: the path of
    /// an SSH remote or of a URL on the backend's host, without leading
    /// slashes and a final `.git`, must be `owner/name`.
    pub fn parse_github_url(url: &str) -> (r: Result<(String, String), RemoteUrlError>)
        ensures
            match repo_path(url@) {
                Err(e) => r == Err::<(String, String), RemoteUrlError>(e),
                Ok(p) => match r {
                    Ok((o, n)) => is_two_parts(p) && has_no_slash(o@) && has_no_slash(n@) && p
                        == o@ + seq!['/'] + n@,
                    Err(e) => !is_two_parts(p) && e == if starts_with(url@, ssh_prefix()) {
                        RemoteUrlError::InvalidSshFormat
                    } else {
                        RemoteUrlError::InvalidFormat
                    },
                },
            },
    {
        if has_prefix(url, "git@github.com:") {
            let n = url.unicode_len();
            proof {
                reveal_strlit("git@github.com:");
            }
            let rest = url.substring_char(15, n);
            assert(rest@ =~= url@.skip(ssh_prefix().len() as int));
            let path = strip_git_suffix(rest);
            return match split_two(path) {
                Some(parts) => Ok(parts),
                None => Err(RemoteUrlError::InvalidSshFormat),
            };
        }
        let parts = match url_parts(url) {
            Some(p) => p,
            None => {
                return Err(RemoteUrlError::Unparsable);
            },
        };
        let on_host = match &parts.host {
            Some(h) => same_text(h.as_str(), "github.com"),
            None => false,
        };
        if !on_host {
            return Err(RemoteUrlError::NotGithub);
        }
        let path = strip_git_suffix(trim_slashes_front(parts.path.as_str()));
        match split_two(path) {
            Some(parts) => Ok(parts),
            None => Err(RemoteUrlError::InvalidFormat),
        }
    }
}

} // verus!
