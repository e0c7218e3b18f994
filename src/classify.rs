//! The commit classifier and the stack resolver.
//!
//! The classifier walks a window of primary-branch history, newest first, and
//! decides for each commit whether it is new, changed since its record was
//! written, or already current. A commit's record is found by its current
//! identity first; failing that, by the branch name derived from its message,
//! which stays fixed for the life of a record. So an amended commit, whose
//! identity changed, still finds the record of its lineage.

use vstd::prelude::*;
use vstd::string::*;

use crate::branch_naming::{branch_name_of, generate_branch_name};
use crate::metadata::{CommitMetadata, CommitMetadataView};
use crate::text::same_text;

verus! {

/// Commits visited when every recent commit is processed.
pub const FULL_WINDOW: usize = 10;

/// Commits visited when only the newest commit is processed.
pub const SINGLE_WINDOW: usize = 1;

/// The number of commits to visit.
pub fn window_size(latest_only: bool) -> (r: usize)
    ensures
        r == if latest_only { SINGLE_WINDOW } else { FULL_WINDOW },
{
    if latest_only { SINGLE_WINDOW } else { FULL_WINDOW }
}

/// A commit of the walked history.
#[derive(Debug)]
pub struct HistoryCommit {
    pub id: String,
    pub message: String,
}

pub ghost struct HistoryCommitView {
    pub id: Seq<char>,
    pub message: Seq<char>,
}

impl View for HistoryCommit {
    type V = HistoryCommitView;

    open spec fn view(&self) -> HistoryCommitView {
        HistoryCommitView { id: self.id@, message: self.message@ }
    }
}

/// A stored record together with the commit identity it is attached to.
#[derive(Debug)]
pub struct StoredRecord {
    pub commit_id: String,
    pub metadata: CommitMetadata,
}

pub ghost struct StoredRecordView {
    pub commit_id: Seq<char>,
    pub metadata: CommitMetadataView,
}

impl View for StoredRecord {
    type V = StoredRecordView;

    open spec fn view(&self) -> StoredRecordView {
        StoredRecordView { commit_id: self.commit_id@, metadata: self.metadata@ }
    }
}

/// A commit that could become a pull request.
#[derive(Debug)]
pub struct CommitInfo {
    pub id: String,
    pub message: String,
    pub potential_branch_name: String,
}

pub ghost struct CommitInfoView {
    pub id: Seq<char>,
    pub message: Seq<char>,
    pub potential_branch_name: Seq<char>,
}

impl View for CommitInfo {
    type V = CommitInfoView;

    open spec fn view(&self) -> CommitInfoView {
        CommitInfoView {
            id: self.id@,
            message: self.message@,
            potential_branch_name: self.potential_branch_name@,
        }
    }
}

/// What the classifier asks for one commit.
#[derive(Debug)]
pub enum CommitUpdateType {
    /// The commit has no record: a branch (and pull request) is to be made.
    NewCommit(CommitInfo),
    /// The commit's record was written for another identity: the pull request
    /// is to receive an incremental update. `original_oid` is the identity the
    /// record is attached to, `updated_oid` the commit's current one.
    IncrementalUpdate { original_oid: String, updated_oid: String, metadata: CommitMetadata },
}

pub ghost enum CommitUpdateView {
    NewCommit(CommitInfoView),
    IncrementalUpdate {
        original_oid: Seq<char>,
        updated_oid: Seq<char>,
        metadata: CommitMetadataView,
    },
}

impl View for CommitUpdateType {
    type V = CommitUpdateView;

    open spec fn view(&self) -> CommitUpdateView {
        match self {
            CommitUpdateType::NewCommit(c) => CommitUpdateView::NewCommit(c@),
            CommitUpdateType::IncrementalUpdate { original_oid, updated_oid, metadata } =>
                CommitUpdateView::IncrementalUpdate {
                original_oid: original_oid@,
                updated_oid: updated_oid@,
                metadata: metadata@,
            },
        }
    }
}

pub open spec fn stored_view(t: Seq<StoredRecord>) -> Seq<StoredRecordView> {
    t.map_values(|c: StoredRecord| c@)
}

pub open spec fn history_view(h: Seq<HistoryCommit>) -> Seq<HistoryCommitView> {
    h.map_values(|c: HistoryCommit| c@)
}

pub open spec fn updates_view(u: Seq<CommitUpdateType>) -> Seq<CommitUpdateView> {
    u.map_values(|c: CommitUpdateType| c@)
}

/// Index of the first record attached to `id`.
pub open spec fn first_with_key(t: Seq<StoredRecordView>, id: Seq<char>) -> Option<int>
    decreases t.len(),
{
    if t.len() == 0 {
        None
    } else {
        match first_with_key(t.drop_last(), id) {
            Some(i) => Some(i),
            None => if t.last().commit_id == id {
                Some(t.len() - 1)
            } else {
                None
            },
        }
    }
}

/// Index of the first record whose branch is `name`.
pub open spec fn first_with_branch(t: Seq<StoredRecordView>, name: Seq<char>) -> Option<int>
    decreases t.len(),
{
    if t.len() == 0 {
        None
    } else {
        match first_with_branch(t.drop_last(), name) {
            Some(i) => Some(i),
            None => if t.last().metadata.pr_branch_name == name {
                Some(t.len() - 1)
            } else {
                None
            },
        }
    }
}

/// The record of a commit: the one attached to its identity, else the one
/// whose branch carries its derived name.
pub open spec fn lookup(t: Seq<StoredRecordView>, id: Seq<char>, name: Seq<char>) -> Option<int> {
    match first_with_key(t, id) {
        Some(i) => Some(i),
        None => first_with_branch(t, name),
    }
}

/// The action for one commit, if any.
pub open spec fn action_for(
    t: Seq<StoredRecordView>,
    operator: Seq<char>,
    c: HistoryCommitView,
) -> Option<CommitUpdateView> {
    let name = branch_name_of(operator, c.message);
    match lookup(t, c.id, name) {
        Some(k) => if t[k].metadata.is_current_for(c.id) {
            None
        } else {
            Some(
                CommitUpdateView::IncrementalUpdate {
                    original_oid: t[k].commit_id,
                    updated_oid: c.id,
                    metadata: t[k].metadata,
                },
            )
        },
        None => Some(
            CommitUpdateView::NewCommit(
                CommitInfoView { id: c.id, message: c.message, potential_branch_name: name },
            ),
        ),
    }
}

/// The actions for a run of commits, in the order of the commits.
pub open spec fn actions_of(
    t: Seq<StoredRecordView>,
    operator: Seq<char>,
    w: Seq<HistoryCommitView>,
) -> Seq<CommitUpdateView>
    decreases w.len(),
{
    if w.len() == 0 {
        Seq::empty()
    } else {
        let p = actions_of(t, operator, w.drop_last());
        match action_for(t, operator, w.last()) {
            Some(a) => p.push(a),
            None => p,
        }
    }
}

/// The commits visited: at most `limit` from the newest.
pub open spec fn window_of(h: Seq<HistoryCommitView>, limit: nat) -> Seq<HistoryCommitView> {
    if h.len() <= limit {
        h
    } else {
        h.take(limit as int)
    }
}

/// Index of the first record attached to `id`.
pub fn find_by_key(records: &Vec<StoredRecord>, id: &str) -> (r: Option<usize>)
    ensures
        match r {
            Some(i) => first_with_key(stored_view(records@), id@) == Some(i as int),
            None => first_with_key(stored_view(records@), id@) is None,
        },
{
    let ghost t = stored_view(records@);
    let mut i: usize = 0;
    while i < records.len()
        invariant
            t == stored_view(records@),
            i <= records@.len(),
            first_with_key(t.subrange(0, i as int), id@) is None,
        decreases records@.len() - i,
    {
        proof {
            assert(t.subrange(0, i as int + 1).drop_last() =~= t.subrange(0, i as int));
            assert(t.subrange(0, i as int + 1).last() == records@[i as int]@);
        }
        if same_text(records[i].commit_id.as_str(), id) {
            proof {
                lemma_first_with_key_prefix(t, id@, i as int);
            }
            return Some(i);
        }
        i = i + 1;
    }
    assert(t.subrange(0, i as int) =~= t);
    None
}

proof fn lemma_first_with_key_prefix(t: Seq<StoredRecordView>, id: Seq<char>, i: int)
    requires
        0 <= i < t.len(),
        first_with_key(t.subrange(0, i), id) is None,
        first_with_key(t.subrange(0, i + 1), id) == Some(i),
    ensures
        first_with_key(t, id) == Some(i),
    decreases t.len(),
{
    if t.len() == i + 1 {
        assert(t.subrange(0, i + 1) =~= t);
    } else {
        assert(t.drop_last().subrange(0, i) =~= t.subrange(0, i));
        assert(t.drop_last().subrange(0, i + 1) =~= t.subrange(0, i + 1));
        lemma_first_with_key_prefix(t.drop_last(), id, i);
    }
}

proof fn lemma_first_with_branch_prefix(t: Seq<StoredRecordView>, name: Seq<char>, i: int)
    requires
        0 <= i < t.len(),
        first_with_branch(t.subrange(0, i), name) is None,
        first_with_branch(t.subrange(0, i + 1), name) == Some(i),
    ensures
        first_with_branch(t, name) == Some(i),
    decreases t.len(),
{
    if t.len() == i + 1 {
        assert(t.subrange(0, i + 1) =~= t);
    } else {
        assert(t.drop_last().subrange(0, i) =~= t.subrange(0, i));
        assert(t.drop_last().subrange(0, i + 1) =~= t.subrange(0, i + 1));
        lemma_first_with_branch_prefix(t.drop_last(), name, i);
    }
}

/// Index of the first record whose branch is `name`.
pub fn find_by_branch(records: &Vec<StoredRecord>, name: &str) -> (r: Option<usize>)
    ensures
        match r {
            Some(i) => first_with_branch(stored_view(records@), name@) == Some(i as int),
            None => first_with_branch(stored_view(records@), name@) is None,
        },
{
    let ghost t = stored_view(records@);
    let mut i: usize = 0;
    while i < records.len()
        invariant
            t == stored_view(records@),
            i <= records@.len(),
            first_with_branch(t.subrange(0, i as int), name@) is None,
        decreases records@.len() - i,
    {
        proof {
            assert(t.subrange(0, i as int + 1).drop_last() =~= t.subrange(0, i as int));
            assert(t.subrange(0, i as int + 1).last() == records@[i as int]@);
        }
        if same_text(records[i].metadata.pr_branch_name.as_str(), name) {
            proof {
                lemma_first_with_branch_prefix(t, name@, i as int);
            }
            return Some(i);
        }
        i = i + 1;
    }
    assert(t.subrange(0, i as int) =~= t);
    None
}

/// The action for one commit, if any.
fn classify_one(records: &Vec<StoredRecord>, username: &str, c: &HistoryCommit) -> (r: Option<
    CommitUpdateType,
>)
    ensures
        match r {
            Some(a) => action_for(stored_view(records@), username@, c@) == Some(a@),
            None => action_for(stored_view(records@), username@, c@) is None,
        },
{
    let name = generate_branch_name(username, c.message.as_str());
    let found = match find_by_key(records, c.id.as_str()) {
        Some(i) => Some(i),
        None => find_by_branch(records, name.as_str()),
    };
    proof {
        lemma_first_with_key_bounds(stored_view(records@), c.id@);
        lemma_first_with_branch_bounds(stored_view(records@), name@);
    }
    match found {
        Some(k) => {
            let rec = &records[k];
            assert(stored_view(records@)[k as int] == records@[k as int]@);
            if rec.metadata.is_current_for(c.id.as_str()) {
                None
            } else {
                Some(
                    CommitUpdateType::IncrementalUpdate {
                        original_oid: rec.commit_id.clone(),
                        updated_oid: c.id.clone(),
                        metadata: rec.metadata.duplicate(),
                    },
                )
            }
        },
        None => Some(
            CommitUpdateType::NewCommit(
                CommitInfo {
                    id: c.id.clone(),
                    message: c.message.clone(),
                    potential_branch_name: name,
                },
            ),
        ),
    }
}

/// Classifies the newest `limit` commits of `history` (newest first) against
/// the stored records: one action per commit that is new or changed, in the
/// order of the walk. An empty window gives no action.
pub fn classify_commits(
    history: &Vec<HistoryCommit>,
    records: &Vec<StoredRecord>,
    username: &str,
    limit: usize,
) -> (r: Vec<CommitUpdateType>)
    ensures
        updates_view(r@) == actions_of(
            stored_view(records@),
            username@,
            window_of(history_view(history@), limit as nat),
        ),
{
    let n = if history.len() <= limit { history.len() } else { limit };
    let ghost w = window_of(history_view(history@), limit as nat);
    let mut out: Vec<CommitUpdateType> = Vec::new();
    let mut i: usize = 0;
    while i < n
        invariant
            n <= history@.len(),
            w == history_view(history@).take(n as int),
            i <= n,
            updates_view(out@) == actions_of(stored_view(records@), username@, w.take(i as int)),
        decreases n - i,
    {
        let a = classify_one(records, username, &history[i]);
        proof {
            assert(w.take(i as int + 1).drop_last() =~= w.take(i as int));
            assert(w.take(i as int + 1).last() == history@[i as int]@);
        }
        match a {
            Some(a) => {
                out.push(a);
                proof {
                    assert(updates_view(out@) =~= actions_of(
                        stored_view(records@),
                        username@,
                        w.take(i as int),
                    ).push(a@));
                }
            },
            None => {},
        }
        i = i + 1;
    }
    proof {
        assert(w.take(n as int) =~= w);
        if history@.len() <= limit {
            assert(history_view(history@).take(n as int) =~= history_view(history@));
        }
    }
    out
}

/// Classifies the full window of recent commits.
pub fn get_commits_needing_processing(
    history: &Vec<HistoryCommit>,
    records: &Vec<StoredRecord>,
    username: &str,
) -> (r: Vec<CommitUpdateType>)
    ensures
        updates_view(r@) == actions_of(
            stored_view(records@),
            username@,
            window_of(history_view(history@), FULL_WINDOW as nat),
        ),
{
    classify_commits(history, records, username, FULL_WINDOW)
}

/// Classifies only the newest commit.
pub fn get_latest_commit_needing_processing(
    history: &Vec<HistoryCommit>,
    records: &Vec<StoredRecord>,
    username: &str,
) -> (r: Vec<CommitUpdateType>)
    ensures
        updates_view(r@) == actions_of(
            stored_view(records@),
            username@,
            window_of(history_view(history@), SINGLE_WINDOW as nat),
        ),
{
    classify_commits(history, records, username, SINGLE_WINDOW)
}

/// Classifying again after the records were written asks for nothing: when
/// every commit of the window finds a record that is current for it (as the
/// record created for a new commit is, and the record after an incremental
/// update is for the updated commit), the window yields no action at all.
pub proof fn lemma_current_window_is_quiet(
    t: Seq<StoredRecordView>,
    operator: Seq<char>,
    w: Seq<HistoryCommitView>,
)
    requires
        forall|i: int|
            0 <= i < w.len() ==> match #[trigger] lookup(
                t,
                w[i].id,
                branch_name_of(operator, w[i].message),
            ) {
                Some(k) => t[k].metadata.is_current_for(w[i].id),
                None => false,
            },
    ensures
        actions_of(t, operator, w).len() == 0,
    decreases w.len(),
{
    if w.len() > 0 {
        let p = w.drop_last();
        assert forall|i: int| 0 <= i < p.len() implies match #[trigger] lookup(
            t,
            p[i].id,
            branch_name_of(operator, p[i].message),
        ) {
            Some(k) => t[k].metadata.is_current_for(p[i].id),
            None => false,
        } by {
            assert(p[i] == w[i]);
        }
        lemma_current_window_is_quiet(t, operator, p);
        let c = w[w.len() - 1];
        assert(lookup(t, c.id, branch_name_of(operator, c.message)) is Some);
    }
}

proof fn lemma_first_with_key_bounds(t: Seq<StoredRecordView>, id: Seq<char>)
    ensures
        match first_with_key(t, id) {
            Some(k) => 0 <= k < t.len() && t[k].commit_id == id,
            None => forall|k: int| 0 <= k < t.len() ==> t[k].commit_id != id,
        },
    decreases t.len(),
{
    if t.len() > 0 {
        lemma_first_with_key_bounds(t.drop_last(), id);
        let p = t.drop_last();
        assert forall|k: int| 0 <= k < p.len() implies p[k] == t[k] by {}
    }
}

proof fn lemma_first_with_branch_bounds(t: Seq<StoredRecordView>, name: Seq<char>)
    ensures
        match first_with_branch(t, name) {
            Some(k) => 0 <= k < t.len() && t[k].metadata.pr_branch_name == name,
            None => forall|k: int| 0 <= k < t.len() ==> t[k].metadata.pr_branch_name != name,
        },
    decreases t.len(),
{
    if t.len() > 0 {
        lemma_first_with_branch_bounds(t.drop_last(), name);
        let p = t.drop_last();
        assert forall|k: int| 0 <= k < p.len() implies p[k] == t[k] by {}
    }
}

/// A one-commit window with no stored record yields exactly one action: a new
/// commit whose branch name is the one derived from the commit's message.
pub proof fn lemma_single_new_commit(operator: Seq<char>, c: HistoryCommitView)
    ensures
        actions_of(Seq::empty(), operator, seq![c]) == seq![
            CommitUpdateView::NewCommit(
                CommitInfoView {
                    id: c.id,
                    message: c.message,
                    potential_branch_name: branch_name_of(operator, c.message),
                },
            ),
        ],
{
    let w = seq![c];
    let t = Seq::<StoredRecordView>::empty();
    assert(w.drop_last() =~= Seq::<HistoryCommitView>::empty());
    assert(w.last() == c);
    assert(first_with_key(t, c.id) is None);
    assert(first_with_branch(t, branch_name_of(operator, c.message)) is None);
    assert(actions_of(t, operator, Seq::<HistoryCommitView>::empty()) == Seq::<CommitUpdateView>::empty());
    assert(Seq::<CommitUpdateView>::empty().push(
        CommitUpdateView::NewCommit(
            CommitInfoView {
                id: c.id,
                message: c.message,
                potential_branch_name: branch_name_of(operator, c.message),
            },
        ),
    ) =~= seq![
        CommitUpdateView::NewCommit(
            CommitInfoView {
                id: c.id,
                message: c.message,
                potential_branch_name: branch_name_of(operator, c.message),
            },
        ),
    ]);
}

/// A commit whose record was found under its old identity or its branch, and
/// that the record does not yet reflect, is classified as an incremental
/// update of that record, never as new.
pub proof fn lemma_rewritten_commit_is_update(
    t: Seq<StoredRecordView>,
    operator: Seq<char>,
    c: HistoryCommitView,
)
    requires
        lookup(t, c.id, branch_name_of(operator, c.message)) is Some,
        !t[lookup(t, c.id, branch_name_of(operator, c.message))->0].metadata.is_current_for(c.id),
    ensures
        action_for(t, operator, c) matches Some(CommitUpdateView::IncrementalUpdate { updated_oid, .. })
            && updated_oid == c.id,
{
}

/// The default primary branch name when the repository names none.
pub open spec fn default_primary() -> Seq<char> {
    seq!['m', 'a', 'i', 'n']
}

/// The base branch for a commit's pull request: the parent's branch when the
/// parent has a record with a pull request, else the primary branch.
pub open spec fn base_branch_of(
    t: Seq<StoredRecordView>,
    parent: Option<Seq<char>>,
    primary: Option<Seq<char>>,
) -> Seq<char> {
    let from_parent = match parent {
        Some(p) => match first_with_key(t, p) {
            Some(k) => if t[k].metadata.github_pr_number is Some {
                Some(t[k].metadata.pr_branch_name)
            } else {
                None
            },
            None => None,
        },
        None => None,
    };
    match from_parent {
        Some(b) => b,
        None => match primary {
            Some(m) => m,
            None => default_primary(),
        },
    }
}

/// Picks the base branch for a commit from its first parent's identity (if it
/// has a parent), the stored records, and the repository's primary branch name
/// (if it has one): the parent's branch when the parent's record has a pull
/// request, so stacked commits give stacked pull requests; else the primary
/// branch; else `main`.
pub fn determine_base_branch_for_commit(
    parent_id: Option<&str>,
    records: &Vec<StoredRecord>,
    primary: Option<&str>,
) -> (r: String)
    ensures
        r@ == base_branch_of(
            stored_view(records@),
            match parent_id {
                Some(p) => Some(p@),
                None => None,
            },
            match primary {
                Some(m) => Some(m@),
                None => None,
            },
        ),
{
    if let Some(p) = parent_id {
        if let Some(k) = find_by_key(records, p) {
            proof {
                lemma_first_with_key_bounds(stored_view(records@), p@);
            }
            let rec = &records[k].metadata;
            if rec.github_pr_number.is_some() {
                return rec.pr_branch_name.clone();
            }
        }
    }
    match primary {
        Some(m) => String::from_str(m),
        None => {
            let r = String::from_str("main");
            proof {
                reveal_strlit("main");
                assert(r@ =~= default_primary());
            }
            r
        },
    }
}

/// With no record for the parent the base is the primary branch; with a
/// parent record that has a pull request, the base is the parent's branch.
pub proof fn lemma_stack_base(
    t: Seq<StoredRecordView>,
    parent: Seq<char>,
    primary: Seq<char>,
)
    ensures
        first_with_key(t, parent) is None ==> base_branch_of(t, Some(parent), Some(primary))
            == primary,
        forall|k: int|
            first_with_key(t, parent) == Some(k) && #[trigger] t[k].metadata.github_pr_number is Some
                ==> base_branch_of(t, Some(parent), Some(primary)) == t[k].metadata.pr_branch_name,
{
}

} // verus!
