//! The remote review gateway: the values it exchanges, the capability it
//! offers, and an in-memory implementation that records every call.

use vstd::prelude::*;
use vstd::string::*;

use crate::git_utils::{is_two_parts, repo_path, GitUtils, RemoteUrlError};
use crate::branch_naming::has_no_slash;
use crate::text::{push_decimal, push_text, string_from_chars, decimal_of};

verus! {

/// A repository on the review backend.
#[derive(Debug)]
pub struct GitHubRepo {
    pub owner: String,
    pub name: String,
}

/// The repository named by the `origin` remote's URL (see
/// `GitUtils::parse_github_url`).
pub fn get_github_repo_from_remote(remote_url: &str) -> (r: Result<GitHubRepo, RemoteUrlError>)
    ensures
        match repo_path(remote_url@) {
            Err(e) => r == Err::<GitHubRepo, RemoteUrlError>(e),
            Ok(p) => match r {
                Ok(repo) => has_no_slash(repo.owner@) && has_no_slash(repo.name@) && p
                    == repo.owner@ + seq!['/'] + repo.name@,
                Err(_) => !is_two_parts(p),
            },
        },
{
    match GitUtils::parse_github_url(remote_url) {
        Ok((owner, name)) => Ok(GitHubRepo { owner, name }),
        Err(e) => Err(e),
    }
}

/// A pull request as returned when it is created.
#[derive(Debug)]
pub struct PRInfo {
    pub number: u64,
    pub url: String,
    pub title: String,
}

pub ghost struct PRInfoView {
    pub number: u64,
    pub url: Seq<char>,
    pub title: Seq<char>,
}

impl View for PRInfo {
    type V = PRInfoView;

    open spec fn view(&self) -> PRInfoView {
        PRInfoView { number: self.number, url: self.url@, title: self.title@ }
    }
}

impl PRInfo {
    /// A copy with the same contents.
    pub fn duplicate(&self) -> (r: PRInfo)
        ensures
            r@ == self@,
    {
        PRInfo { number: self.number, url: self.url.clone(), title: self.title.clone() }
    }
}

/// The state of a pull request on the backend.
#[derive(Debug)]
pub struct GitHubPRStatus {
    pub number: u64,
    /// `open`, `closed` or `merged`.
    pub state: String,
    pub title: String,
    pub url: String,
    pub mergeable: Option<bool>,
    pub draft: bool,
}

pub ghost struct PRStatusView {
    pub number: u64,
    pub state: Seq<char>,
    pub title: Seq<char>,
    pub url: Seq<char>,
    pub mergeable: Option<bool>,
    pub draft: bool,
}

impl View for GitHubPRStatus {
    type V = PRStatusView;

    open spec fn view(&self) -> PRStatusView {
        PRStatusView {
            number: self.number,
            state: self.state@,
            title: self.title@,
            url: self.url@,
            mergeable: self.mergeable,
            draft: self.draft,
        }
    }
}

impl GitHubPRStatus {
    /// A copy with the same contents.
    pub fn duplicate(&self) -> (r: GitHubPRStatus)
        ensures
            r@ == self@,
    {
        GitHubPRStatus {
            number: self.number,
            state: self.state.clone(),
            title: self.title.clone(),
            url: self.url.clone(),
            mergeable: self.mergeable,
            draft: self.draft,
        }
    }
}

/// A failure reported by the review backend.
#[derive(Debug)]
pub struct GatewayError {
    pub message: String,
}

/// The capability the core needs from a review backend.
pub trait GitHubClientTrait {
    fn create_pr(&mut self, branch_name: &str, title: &str, body: &str, base_branch: &str) -> Result<
        PRInfo,
        GatewayError,
    >;

    fn update_pr(&mut self, pr_number: u64, title: Option<&str>, body: Option<&str>) -> Result<
        (),
        GatewayError,
    >;

    fn get_pr_status(&self, pr_number: u64) -> Result<GitHubPRStatus, GatewayError>;

    fn get_multiple_pr_statuses(&self, pr_numbers: &Vec<u64>) -> Result<
        Vec<GitHubPRStatus>,
        GatewayError,
    >;
}

/// A pull request the in-memory backend created, with the branch it was
/// created for.
#[derive(Debug)]
pub struct CreatedPr {
    pub branch_name: String,
    pub info: PRInfo,
}

/// An update the in-memory backend received.
#[derive(Debug)]
pub struct PrUpdate {
    pub pr_number: u64,
    pub title: Option<String>,
    pub body: Option<String>,
}

pub ghost struct PrUpdateView {
    pub pr_number: u64,
    pub title: Option<Seq<char>>,
    pub body: Option<Seq<char>>,
}

impl View for PrUpdate {
    type V = PrUpdateView;

    open spec fn view(&self) -> PrUpdateView {
        PrUpdateView {
            pr_number: self.pr_number,
            title: match &self.title {
                Some(t) => Some(t@),
                None => None,
            },
            body: match &self.body {
                Some(b) => Some(b@),
                None => None,
            },
        }
    }
}

/// A status the in-memory backend holds for a pull request number.
#[derive(Debug)]
pub struct KeyedStatus {
    pub pr_number: u64,
    pub status: GitHubPRStatus,
}

/// An in-memory review backend for tests: it numbers pull requests from 1 and
/// remembers what it was asked. Later entries supersede earlier ones.
#[derive(Debug)]
pub struct MockGitHubClient {
    created_prs: Vec<CreatedPr>,
    pr_statuses: Vec<KeyedStatus>,
    next_pr_number: u64,
    pr_updates: Vec<PrUpdate>,
}

pub ghost struct MockView {
    pub created: Seq<(Seq<char>, PRInfoView)>,
    pub statuses: Seq<(u64, PRStatusView)>,
    pub next_pr_number: u64,
    pub updates: Seq<PrUpdateView>,
}

impl View for MockGitHubClient {
    type V = MockView;

    closed spec fn view(&self) -> MockView {
        MockView {
            created: self.created_prs@.map_values(|c: CreatedPr| (c.branch_name@, c.info@)),
            statuses: self.pr_statuses@.map_values(|k: KeyedStatus| (k.pr_number, k.status@)),
            next_pr_number: self.next_pr_number,
            updates: self.pr_updates@.map_values(|u: PrUpdate| u@),
        }
    }
}

/// The latest status held for pull request `n`.
pub open spec fn status_held(s: Seq<(u64, PRStatusView)>, n: u64) -> Option<PRStatusView>
    decreases s.len(),
{
    if s.len() == 0 {
        None
    } else if s.last().0 == n {
        Some(s.last().1)
    } else {
        status_held(s.drop_last(), n)
    }
}

pub open spec fn has_branch(c: Seq<(Seq<char>, PRInfoView)>, b: Seq<char>) -> bool {
    exists|i: int| 0 <= i < c.len() && (#[trigger] c[i]).0 == b
}

pub open spec fn has_update(u: Seq<PrUpdateView>, n: u64) -> bool {
    exists|i: int| 0 <= i < u.len() && (#[trigger] u[i]).pr_number == n
}

/// The statuses found for `ns`, in order, skipping numbers with none.
pub open spec fn found_statuses(s: Seq<(u64, PRStatusView)>, ns: Seq<u64>) -> Seq<PRStatusView>
    decreases ns.len(),
{
    if ns.len() == 0 {
        Seq::empty()
    } else {
        let p = found_statuses(s, ns.drop_last());
        match status_held(s, ns.last()) {
            Some(x) => p.push(x),
            None => p,
        }
    }
}

pub open spec fn mock_url(n: u64) -> Seq<char> {
    "https://github.com/mock/repo/pull/"@ + decimal_of(n as nat)
}

pub open spec fn mock_body(b: Seq<char>) -> Seq<char> {
    "Mock PR body for branch: "@ + b
}

pub open spec fn not_found_message(n: u64) -> Seq<char> {
    "PR #"@ + decimal_of(n as nat) + " not found"@
}

fn status_index(statuses: &Vec<KeyedStatus>, n: u64) -> (r: Option<usize>)
    ensures
        match r {
            Some(i) => i < statuses@.len() && status_held(
                statuses@.map_values(|k: KeyedStatus| (k.pr_number, k.status@)),
                n,
            ) == Some(statuses@[i as int].status@),
            None => status_held(
                statuses@.map_values(|k: KeyedStatus| (k.pr_number, k.status@)),
                n,
            ) is None,
        },
{
    let ghost all = statuses@.map_values(|k: KeyedStatus| (k.pr_number, k.status@));
    let mut i: usize = statuses.len();
    assert(all.take(i as int) =~= all);
    while i > 0
        invariant
            i <= statuses@.len(),
            all == statuses@.map_values(|k: KeyedStatus| (k.pr_number, k.status@)),
            status_held(all, n) == status_held(all.take(i as int), n),
        decreases i,
    {
        proof {
            assert(all.take(i as int).drop_last() =~= all.take(i as int - 1));
        }
        if statuses[i - 1].pr_number == n {
            return Some(i - 1);
        }
        i = i - 1;
    }
    None
}

fn not_found(n: u64) -> (e: GatewayError)
    ensures
        e.message@ == not_found_message(n),
{
    let mut v: Vec<char> = Vec::new();
    push_text(&mut v, "PR #");
    push_decimal(&mut v, n);
    push_text(&mut v, " not found");
    proof {
        reveal_strlit("PR #");
        reveal_strlit(" not found");
        assert(v@ =~= not_found_message(n));
    }
    GatewayError { message: string_from_chars(&v) }
}

impl MockGitHubClient {
    /// An empty backend whose first pull request will be number 1.
    pub fn new() -> (r: MockGitHubClient)
        ensures
            r@.created.len() == 0,
            r@.statuses.len() == 0,
            r@.updates.len() == 0,
            r@.next_pr_number == 1,
    {
        let r = MockGitHubClient {
            created_prs: Vec::new(),
            pr_statuses: Vec::new(),
            next_pr_number: 1,
            pr_updates: Vec::new(),
        };
        assert(r@.created =~= Seq::<(Seq<char>, PRInfoView)>::empty());
        assert(r@.statuses =~= Seq::<(u64, PRStatusView)>::empty());
        assert(r@.updates =~= Seq::<PrUpdateView>::empty());
        r
    }

    /// Records `status` as the current status of pull request `pr_number`.
    pub fn add_pr_status(&mut self, pr_number: u64, status: GitHubPRStatus)
        ensures
            final(self)@ == (MockView {
                statuses: old(self)@.statuses.push((pr_number, status@)),
                ..old(self)@
            }),
    {
        let ghost before = self.pr_statuses@;
        let k = KeyedStatus { pr_number, status };
        self.pr_statuses.push(k);
        proof {
            assert(self.pr_statuses@.map_values(|k: KeyedStatus| (k.pr_number, k.status@)) =~= before.map_values(
                |k: KeyedStatus| (k.pr_number, k.status@),
            ).push((pr_number, k.status@)));
        }
    }

    /// Every pull request created so far, in order of creation, with its branch.
    pub fn get_created_prs(&self) -> (r: Vec<(String, PRInfo)>)
        ensures
            r@.map_values(|p: (String, PRInfo)| (p.0@, p.1@)) == self@.created,
    {
        let mut out: Vec<(String, PRInfo)> = Vec::new();
        let mut i: usize = 0;
        while i < self.created_prs.len()
            invariant
                i <= self.created_prs@.len(),
                out@.len() == i,
                forall|k: int|
                    0 <= k < i ==> (#[trigger] out@[k]).0@ == self.created_prs@[k].branch_name@
                        && out@[k].1@ == self.created_prs@[k].info@,
            decreases self.created_prs@.len() - i,
        {
            let c = &self.created_prs[i];
            out.push((c.branch_name.clone(), c.info.duplicate()));
            i = i + 1;
        }
        assert(out@.map_values(|p: (String, PRInfo)| (p.0@, p.1@)) =~= self@.created);
        out
    }

    /// Every update received so far, in order.
    pub fn get_pr_updates(&self) -> (r: Vec<PrUpdate>)
        ensures
            r@.map_values(|u: PrUpdate| u@) == self@.updates,
    {
        let mut out: Vec<PrUpdate> = Vec::new();
        let mut i: usize = 0;
        while i < self.pr_updates.len()
            invariant
                i <= self.pr_updates@.len(),
                out@.len() == i,
                forall|k: int| 0 <= k < i ==> (#[trigger] out@[k])@ == self.pr_updates@[k]@,
            decreases self.pr_updates@.len() - i,
        {
            let u = &self.pr_updates[i];
            let title = match &u.title {
                Some(t) => Some(t.clone()),
                None => None,
            };
            let body = match &u.body {
                Some(b) => Some(b.clone()),
                None => None,
            };
            out.push(PrUpdate { pr_number: u.pr_number, title, body });
            i = i + 1;
        }
        assert(out@.map_values(|u: PrUpdate| u@) =~= self@.updates);
        out
    }

    /// Whether a pull request was created for `branch_name`.
    pub fn was_pr_created_for_branch(&self, branch_name: &str) -> (r: bool)
        ensures
            r == has_branch(self@.created, branch_name@),
    {
        let mut i: usize = 0;
        while i < self.created_prs.len()
            invariant
                i <= self.created_prs@.len(),
                forall|k: int| 0 <= k < i ==> self@.created[k].0 != branch_name@,
            decreases self.created_prs@.len() - i,
        {
            if crate::text::same_text(self.created_prs[i].branch_name.as_str(), branch_name) {
                assert(self@.created[i as int].0 == branch_name@);
                return true;
            }
            i = i + 1;
        }
        false
    }

    /// Whether pull request `pr_number` received an update.
    pub fn was_pr_updated(&self, pr_number: u64) -> (r: bool)
        ensures
            r == has_update(self@.updates, pr_number),
    {
        let mut i: usize = 0;
        while i < self.pr_updates.len()
            invariant
                i <= self.pr_updates@.len(),
                forall|k: int| 0 <= k < i ==> self@.updates[k].pr_number != pr_number,
            decreases self.pr_updates@.len() - i,
        {
            if self.pr_updates[i].pr_number == pr_number {
                assert(self@.updates[i as int].pr_number == pr_number);
                return true;
            }
            i = i + 1;
        }
        false
    }

    /// A stand-in body for the pull request of `branch_name`, if one was created.
    pub fn get_pr_body(&self, branch_name: &str) -> (r: Option<String>)
        ensures
            match r {
                Some(b) => has_branch(self@.created, branch_name@) && b@ == mock_body(
                    branch_name@,
                ),
                None => !has_branch(self@.created, branch_name@),
            },
    {
        if self.was_pr_created_for_branch(branch_name) {
            let mut b = String::from_str("Mock PR body for branch: ");
            b.append(branch_name);
            proof {
                reveal_strlit("Mock PR body for branch: ");
            }
            Some(b)
        } else {
            None
        }
    }

    /// Creates pull request number `next_pr_number`, open, for `branch_name`.
    /// Fails only when the numbers are exhausted.
    pub fn create_pr_impl(&mut self, branch_name: &str, title: &str, body: &str, base_branch: &str) -> (r:
        Result<PRInfo, GatewayError>)
        ensures
            old(self)@.next_pr_number == u64::MAX ==> r is Err && final(self)@ == old(self)@,
            old(self)@.next_pr_number < u64::MAX ==> {
                let n = old(self)@.next_pr_number;
                let info = PRInfoView { number: n, url: mock_url(n), title: title@ };
                &&& r matches Ok(p) && p@ == info
                &&& final(self)@ == (MockView {
                    created: old(self)@.created.push((branch_name@, info)),
                    statuses: old(self)@.statuses.push(
                        (
                            n,
                            PRStatusView {
                                number: n,
                                state: "open"@,
                                title: title@,
                                url: mock_url(n),
                                mergeable: Some(true),
                                draft: false,
                            },
                        ),
                    ),
                    next_pr_number: (n + 1) as u64,
                    updates: old(self)@.updates,
                })
            },
    {
        let n = self.next_pr_number;
        if n == u64::MAX {
            return Err(GatewayError { message: String::from_str("no pull request number is left") });
        }
        self.next_pr_number = n + 1;
        let mut url_chars: Vec<char> = Vec::new();
        push_text(&mut url_chars, "https://github.com/mock/repo/pull/");
        push_decimal(&mut url_chars, n);
        proof {
            reveal_strlit("https://github.com/mock/repo/pull/");
            reveal_strlit("open");
            assert(url_chars@ =~= mock_url(n));
        }
        let url = string_from_chars(&url_chars);
        let info = PRInfo { number: n, url: url.clone(), title: String::from_str(title) };
        let status = GitHubPRStatus {
            number: n,
            state: String::from_str("open"),
            title: String::from_str(title),
            url,
            mergeable: Some(true),
            draft: false,
        };
        self.created_prs.push(CreatedPr { branch_name: String::from_str(branch_name), info: info.duplicate() });
        let ghost status_view = status@;
        self.pr_statuses.push(KeyedStatus { pr_number: n, status });
        proof {
            assert(final(self)@.created =~= old(self)@.created.push((branch_name@, info@)));
            assert(final(self)@.statuses =~= old(self)@.statuses.push((n, status_view)));
        }
        Ok(info)
    }

    /// Records the update; when a title is given and the pull request has a
    /// status, the status takes the new title.
    pub fn update_pr_impl(&mut self, pr_number: u64, title: Option<&str>, body: Option<&str>) -> (r:
        Result<(), GatewayError>)
        ensures
            r is Ok,
            final(self)@.created == old(self)@.created,
            final(self)@.next_pr_number == old(self)@.next_pr_number,
            final(self)@.updates == old(self)@.updates.push(
                PrUpdateView {
                    pr_number,
                    title: match title {
                        Some(t) => Some(t@),
                        None => None,
                    },
                    body: match body {
                        Some(b) => Some(b@),
                        None => None,
                    },
                },
            ),
            final(self)@.statuses == match (title, status_held(old(self)@.statuses, pr_number)) {
                (Some(t), Some(s)) => old(self)@.statuses.push(
                    (pr_number, PRStatusView { title: t@, ..s }),
                ),
                _ => old(self)@.statuses,
            },
    {
        let t = match title {
            Some(t) => Some(String::from_str(t)),
            None => None,
        };
        let b = match body {
            Some(b) => Some(String::from_str(b)),
            None => None,
        };
        let u = PrUpdate { pr_number, title: t, body: b };
        let ghost before = self.pr_updates@;
        self.pr_updates.push(u);
        proof {
            assert(self.pr_updates@.map_values(|x: PrUpdate| x@) =~= before.map_values(
                |x: PrUpdate| x@,
            ).push(u@));
        }
        if let Some(new_title) = title {
            if let Some(i) = status_index(&self.pr_statuses, pr_number) {
                let mut s = self.pr_statuses[i].status.duplicate();
                s.title = String::from_str(new_title);
                let ghost before = self.pr_statuses@;
                let ghost sv = s@;
                self.pr_statuses.push(KeyedStatus { pr_number, status: s });
                proof {
                    assert(self.pr_statuses@.map_values(|k: KeyedStatus| (k.pr_number, k.status@))
                        =~= before.map_values(|k: KeyedStatus| (k.pr_number, k.status@)).push(
                        (pr_number, sv),
                    ));
                }
            }
        }
        Ok(())
    }

    /// The current status of pull request `pr_number`, or an error naming it.
    pub fn get_pr_status_impl(&self, pr_number: u64) -> (r: Result<GitHubPRStatus, GatewayError>)
        ensures
            match r {
                Ok(s) => status_held(self@.statuses, pr_number) == Some(s@),
                Err(e) => status_held(self@.statuses, pr_number) is None && e.message@
                    == not_found_message(pr_number),
            },
    {
        match status_index(&self.pr_statuses, pr_number) {
            Some(i) => Ok(self.pr_statuses[i].status.duplicate()),
            None => Err(not_found(pr_number)),
        }
    }

    /// The statuses of the given pull requests, in order; numbers without a
    /// status are skipped.
    pub fn get_multiple_pr_statuses_impl(&self, pr_numbers: &Vec<u64>) -> (r: Result<
        Vec<GitHubPRStatus>,
        GatewayError,
    >)
        ensures
            r matches Ok(v) && v@.map_values(|s: GitHubPRStatus| s@) == found_statuses(
                self@.statuses,
                pr_numbers@,
            ),
    {
        let mut out: Vec<GitHubPRStatus> = Vec::new();
        let mut i: usize = 0;
        while i < pr_numbers.len()
            invariant
                i <= pr_numbers@.len(),
                out@.map_values(|s: GitHubPRStatus| s@) == found_statuses(
                    self@.statuses,
                    pr_numbers@.take(i as int),
                ),
            decreases pr_numbers@.len() - i,
        {
            proof {
                assert(pr_numbers@.take(i as int + 1).drop_last() =~= pr_numbers@.take(i as int));
            }
            match self.get_pr_status_impl(pr_numbers[i]) {
                Ok(s) => {
                    let ghost before = out@;
                    out.push(s);
                    proof {
                        assert(out@.map_values(|s: GitHubPRStatus| s@) =~= before.map_values(
                            |s: GitHubPRStatus| s@,
                        ).push(s@));
                    }
                },
                Err(_) => {},
            }
            i = i + 1;
        }
        assert(pr_numbers@.take(pr_numbers@.len() as int) =~= pr_numbers@);
        Ok(out)
    }
}

impl GitHubClientTrait for MockGitHubClient {
    fn create_pr(&mut self, branch_name: &str, title: &str, body: &str, base_branch: &str) -> Result<
        PRInfo,
        GatewayError,
    > {
        self.create_pr_impl(branch_name, title, body, base_branch)
    }

    fn update_pr(&mut self, pr_number: u64, title: Option<&str>, body: Option<&str>) -> Result<
        (),
        GatewayError,
    > {
        self.update_pr_impl(pr_number, title, body)
    }

    fn get_pr_status(&self, pr_number: u64) -> Result<GitHubPRStatus, GatewayError> {
        self.get_pr_status_impl(pr_number)
    }

    fn get_multiple_pr_statuses(&self, pr_numbers: &Vec<u64>) -> Result<
        Vec<GitHubPRStatus>,
        GatewayError,
    > {
        self.get_multiple_pr_statuses_impl(pr_numbers)
    }
}

} // verus!
