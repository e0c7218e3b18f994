//! Branch names for pull-request branches: `gitx/{operator}/{title}`, where the
//! title is a slug derived from the first line of a commit message.

use vstd::prelude::*;
use vstd::string::*;

use crate::text::{chars_of, string_from_chars};

verus! {

/// Longest title segment, in characters.
pub const MAX_TITLE_LEN: usize = 50;

/// What `str::to_lowercase` returns for a string with these characters.
pub uninterp spec fn lower_of(s: Seq<char>) -> Seq<char>;

/// Relies on `str::to_lowercase`: the result depends on the characters alone.
#[verifier::external_body]
fn lowercase(s: &str) -> (r: String)
    ensures
        r@ == lower_of(s@),
{
    s.to_lowercase()
}

/// The fixed first segment of every branch this tool creates.
pub open spec fn branch_prefix() -> Seq<char> {
    seq!['g', 'i', 't', 'x', '/']
}

/// Title used when nothing of the commit title survives sanitising.
pub open spec fn placeholder_title() -> Seq<char> {
    seq!['u', 'n', 't', 'i', 't', 'l', 'e', 'd']
}

pub open spec fn is_slug_char(c: char) -> bool {
    ('a' <= c && c <= 'z') || ('0' <= c && c <= '9')
}

pub open spec fn slug_or_hyphen(c: char) -> char {
    if is_slug_char(c) { c } else { '-' }
}

/// The characters before the first line break.
pub open spec fn first_line(s: Seq<char>) -> Seq<char>
    decreases s.len(),
{
    if s.len() == 0 || s[0] == '\n' {
        Seq::empty()
    } else {
        seq![s[0]] + first_line(s.drop_first())
    }
}

/// Every character outside `[a-z0-9]` replaced by a hyphen, runs of hyphens
/// collapsed into one.
pub open spec fn hyphenate(s: Seq<char>) -> Seq<char>
    decreases s.len(),
{
    if s.len() == 0 {
        s
    } else {
        let p = hyphenate(s.drop_last());
        let c = slug_or_hyphen(s.last());
        if c == '-' && p.len() > 0 && p.last() == '-' {
            p
        } else {
            p.push(c)
        }
    }
}

pub open spec fn trim_start_hyphens(s: Seq<char>) -> Seq<char>
    decreases s.len(),
{
    if s.len() > 0 && s[0] == '-' {
        trim_start_hyphens(s.drop_first())
    } else {
        s
    }
}

pub open spec fn trim_end_hyphens(s: Seq<char>) -> Seq<char>
    decreases s.len(),
{
    if s.len() > 0 && s.last() == '-' {
        trim_end_hyphens(s.drop_last())
    } else {
        s
    }
}

/// Cut to the maximum length, then drop hyphens left at the end.
pub open spec fn cap_length(s: Seq<char>) -> Seq<char> {
    if s.len() > MAX_TITLE_LEN {
        trim_end_hyphens(s.take(MAX_TITLE_LEN as int))
    } else {
        s
    }
}

/// The title segment derived from an already lower-cased first line.
pub open spec fn slug_of_lowered(lowered: Seq<char>) -> Seq<char> {
    let t = cap_length(trim_end_hyphens(trim_start_hyphens(hyphenate(lowered))));
    if t.len() == 0 {
        placeholder_title()
    } else {
        t
    }
}

/// The title segment derived from a commit message.
pub open spec fn title_of(message: Seq<char>) -> Seq<char> {
    slug_of_lowered(lower_of(first_line(message)))
}

/// The branch name for an operator and a commit message.
pub open spec fn branch_name_of(operator: Seq<char>, message: Seq<char>) -> Seq<char> {
    branch_prefix() + operator + seq!['/'] + title_of(message)
}

/// A well-formed title segment: 1 to 50 characters of `[a-z0-9-]`, with no
/// hyphen at either end and no two hyphens in a row.
pub open spec fn is_valid_title(t: Seq<char>) -> bool {
    &&& 1 <= t.len() <= MAX_TITLE_LEN
    &&& forall|i: int| 0 <= i < t.len() ==> is_slug_char(#[trigger] t[i]) || t[i] == '-'
    &&& t[0] != '-'
    &&& t.last() != '-'
    &&& forall|i: int| 0 <= i < t.len() - 1 ==> !(#[trigger] t[i] == '-' && t[i + 1] == '-')
}

pub open spec fn slug_chars(t: Seq<char>) -> bool {
    forall|i: int| 0 <= i < t.len() ==> is_slug_char(#[trigger] t[i]) || t[i] == '-'
}

pub open spec fn no_double_hyphen(t: Seq<char>) -> bool {
    forall|i: int| 0 <= i < t.len() - 1 ==> !(#[trigger] t[i] == '-' && t[i + 1] == '-')
}

pub open spec fn slash_count(s: Seq<char>) -> nat
    decreases s.len(),
{
    if s.len() == 0 {
        0
    } else {
        slash_count(s.drop_last()) + if s.last() == '/' { 1nat } else { 0nat }
    }
}

pub open spec fn has_no_slash(s: Seq<char>) -> bool {
    forall|i: int| 0 <= i < s.len() ==> s[i] != '/'
}

/// Names in this tool's namespace: the fixed prefix and exactly two slashes.
pub open spec fn is_transient_name(b: Seq<char>) -> bool {
    b.len() >= 5 && b.take(5) == branch_prefix() && slash_count(b) == 2
}

proof fn lemma_hyphenate_shape(s: Seq<char>)
    ensures
        slug_chars(hyphenate(s)),
        no_double_hyphen(hyphenate(s)),
    decreases s.len(),
{
    if s.len() > 0 {
        lemma_hyphenate_shape(s.drop_last());
    }
}

proof fn lemma_trim_start_shape(s: Seq<char>)
    requires
        slug_chars(s),
        no_double_hyphen(s),
    ensures
        slug_chars(trim_start_hyphens(s)),
        no_double_hyphen(trim_start_hyphens(s)),
        trim_start_hyphens(s).len() > 0 ==> trim_start_hyphens(s)[0] != '-',
    decreases s.len(),
{
    if s.len() > 0 && s[0] == '-' {
        let t = s.drop_first();
        assert forall|i: int| 0 <= i < t.len() - 1 implies !(#[trigger] t[i] == '-' && t[i + 1] == '-') by {
            assert(t[i] == s[i + 1] && t[i + 1] == s[i + 2]);
        }
        assert forall|i: int| 0 <= i < t.len() implies is_slug_char(#[trigger] t[i]) || t[i] == '-' by {
            assert(t[i] == s[i + 1]);
        }
        lemma_trim_start_shape(t);
    }
}

proof fn lemma_trim_end_shape(s: Seq<char>)
    requires
        slug_chars(s),
        no_double_hyphen(s),
        s.len() > 0 ==> s[0] != '-',
    ensures
        slug_chars(trim_end_hyphens(s)),
        no_double_hyphen(trim_end_hyphens(s)),
        trim_end_hyphens(s).len() > 0 ==> trim_end_hyphens(s)[0] != '-',
        trim_end_hyphens(s).len() > 0 ==> trim_end_hyphens(s).last() != '-',
        trim_end_hyphens(s).len() <= s.len(),
        trim_end_hyphens(s) == s.take(trim_end_hyphens(s).len() as int),
    decreases s.len(),
{
    if s.len() > 0 && s.last() == '-' {
        let t = s.drop_last();
        assert forall|i: int| 0 <= i < t.len() - 1 implies !(#[trigger] t[i] == '-' && t[i + 1] == '-') by {
            assert(t[i] == s[i] && t[i + 1] == s[i + 1]);
        }
        assert forall|i: int| 0 <= i < t.len() implies is_slug_char(#[trigger] t[i]) || t[i] == '-' by {
            assert(t[i] == s[i]);
        }
        lemma_trim_end_shape(t);
        let r = trim_end_hyphens(t);
        assert(r =~= s.take(r.len() as int));
    } else {
        assert(s =~= s.take(s.len() as int));
    }
}

proof fn lemma_take_shape(s: Seq<char>, n: int)
    requires
        slug_chars(s),
        no_double_hyphen(s),
        s.len() > 0 ==> s[0] != '-',
        0 < n <= s.len(),
    ensures
        slug_chars(s.take(n)),
        no_double_hyphen(s.take(n)),
        s.take(n)[0] != '-',
{
    let t = s.take(n);
    assert forall|i: int| 0 <= i < t.len() - 1 implies !(#[trigger] t[i] == '-' && t[i + 1] == '-') by {
        assert(t[i] == s[i] && t[i + 1] == s[i + 1]);
    }
    assert forall|i: int| 0 <= i < t.len() implies is_slug_char(#[trigger] t[i]) || t[i] == '-' by {
        assert(t[i] == s[i]);
    }
}

/// Every derived title is well formed, whatever the lower-cased line holds.
pub proof fn lemma_slug_is_valid(lowered: Seq<char>)
    ensures
        is_valid_title(slug_of_lowered(lowered)),
{
    let h = hyphenate(lowered);
    lemma_hyphenate_shape(lowered);
    let a = trim_start_hyphens(h);
    lemma_trim_start_shape(h);
    let b = trim_end_hyphens(a);
    lemma_trim_end_shape(a);
    let c = cap_length(b);
    if b.len() > MAX_TITLE_LEN {
        lemma_take_shape(b, MAX_TITLE_LEN as int);
        lemma_trim_end_shape(b.take(MAX_TITLE_LEN as int));
    }
    if c.len() == 0 {
        let p = placeholder_title();
        assert(p[0] == 'u');
        assert(p.last() == 'd');
    }
}

/// Every branch name derived from a commit message is `gitx/{operator}/{title}`
/// with a well-formed title; an empty or all-punctuation first line gives the
/// placeholder title, never an empty segment.
pub proof fn lemma_branch_name_shape(operator: Seq<char>, message: Seq<char>)
    ensures
        branch_name_of(operator, message) == branch_prefix() + operator + seq!['/']
            + title_of(message),
        is_valid_title(title_of(message)),
        (forall|i: int|
            0 <= i < lower_of(first_line(message)).len() ==> !is_slug_char(
                #[trigger] lower_of(first_line(message))[i],
            )) ==> title_of(message) == placeholder_title(),
{
    let lowered = lower_of(first_line(message));
    lemma_slug_is_valid(lowered);
    if forall|i: int| 0 <= i < lowered.len() ==> !is_slug_char(#[trigger] lowered[i]) {
        lemma_hyphenate_all_hyphens(lowered);
        lemma_trim_start_all_hyphens(hyphenate(lowered));
    }
}

proof fn lemma_hyphenate_all_hyphens(s: Seq<char>)
    requires
        forall|i: int| 0 <= i < s.len() ==> !is_slug_char(#[trigger] s[i]),
    ensures
        forall|i: int| 0 <= i < hyphenate(s).len() ==> #[trigger] hyphenate(s)[i] == '-',
    decreases s.len(),
{
    if s.len() > 0 {
        let t = s.drop_last();
        assert forall|i: int| 0 <= i < t.len() implies !is_slug_char(#[trigger] t[i]) by {
            assert(t[i] == s[i]);
        }
        lemma_hyphenate_all_hyphens(t);
        assert(!is_slug_char(s.last()));
        let p = hyphenate(t);
        assert(s.drop_last() == t);
        let h = hyphenate(s);
        assert forall|i: int| 0 <= i < h.len() implies #[trigger] h[i] == '-' by {
            if i < p.len() {
                assert(h[i] == p[i]);
            }
        }
    }
}

proof fn lemma_trim_start_all_hyphens(s: Seq<char>)
    requires
        forall|i: int| 0 <= i < s.len() ==> #[trigger] s[i] == '-',
    ensures
        trim_start_hyphens(s).len() == 0,
    decreases s.len(),
{
    if s.len() > 0 {
        let t = s.drop_first();
        assert forall|i: int| 0 <= i < t.len() implies #[trigger] t[i] == '-' by {
            assert(t[i] == s[i + 1]);
        }
        lemma_trim_start_all_hyphens(t);
    }
}

/// Deriving a branch name is a function of its inputs: the same operator and
/// message always give the same name.
pub proof fn lemma_branch_name_deterministic(
    operator1: Seq<char>,
    message1: Seq<char>,
    operator2: Seq<char>,
    message2: Seq<char>,
)
    requires
        operator1 == operator2,
        message1 == message2,
    ensures
        branch_name_of(operator1, message1) == branch_name_of(operator2, message2),
{
}

/// Index of the first line break in `s`, or its length.
fn first_line_end(s: &str) -> (r: usize)
    ensures
        r <= s@.len(),
        s@.subrange(0, r as int) == first_line(s@),
{
    let n = s.unicode_len();
    let mut i: usize = 0;
    while i < n
        invariant
            n == s@.len(),
            i <= n,
            forall|k: int| 0 <= k < i ==> s@[k] != '\n',
        decreases n - i,
    {
        if s.get_char(i) == '\n' {
            proof {
                lemma_first_line_at(s@, i as int);
            }
            return i;
        }
        i = i + 1;
    }
    proof {
        lemma_first_line_at(s@, n as int);
    }
    n
}

/// The first line ends at the first line break, or at the end.
pub(crate) proof fn lemma_first_line_at(s: Seq<char>, i: int)
    requires
        0 <= i <= s.len(),
        forall|k: int| 0 <= k < i ==> s[k] != '\n',
        i < s.len() ==> s[i] == '\n',
    ensures
        first_line(s) == s.subrange(0, i),
    decreases i,
{
    if i == 0 {
        assert(s.subrange(0, 0) =~= Seq::<char>::empty());
    } else {
        let t = s.drop_first();
        assert forall|k: int| 0 <= k < i - 1 implies t[k] != '\n' by {
            assert(t[k] == s[k + 1]);
        }
        lemma_first_line_at(t, i - 1);
        assert(s.subrange(0, i) =~= seq![s[0]] + t.subrange(0, i - 1));
    }
}

/// Replaces each character outside `[a-z0-9]` by a hyphen and collapses runs of
/// hyphens.
fn hyphenate_chars(s: &Vec<char>) -> (r: Vec<char>)
    ensures
        r@ == hyphenate(s@),
{
    let mut out: Vec<char> = Vec::new();
    let mut i: usize = 0;
    while i < s.len()
        invariant
            i <= s@.len(),
            out@ == hyphenate(s@.subrange(0, i as int)),
        decreases s@.len() - i,
    {
        let c0 = s[i];
        let c = if ('a' <= c0 && c0 <= 'z') || ('0' <= c0 && c0 <= '9') {
            c0
        } else {
            '-'
        };
        proof {
            let p = s@.subrange(0, i as int + 1);
            assert(p.drop_last() =~= s@.subrange(0, i as int));
            assert(p.last() == c0);
        }
        let skip = c == '-' && out.len() > 0 && out[out.len() - 1] == '-';
        if !skip {
            out.push(c);
        }
        i = i + 1;
    }
    assert(s@.subrange(0, s@.len() as int) =~= s@);
    out
}

/// Drops hyphens from both ends.
fn trim_hyphens(s: &Vec<char>) -> (r: Vec<char>)
    ensures
        r@ == trim_end_hyphens(trim_start_hyphens(s@)),
{
    let n = s.len();
    let mut start: usize = 0;
    assert(s@.subrange(0, n as int) =~= s@);
    while start < n && s[start] == '-'
        invariant
            n == s@.len(),
            start <= n,
            trim_start_hyphens(s@) == trim_start_hyphens(s@.subrange(start as int, n as int)),
        decreases n - start,
    {
        proof {
            let t = s@.subrange(start as int, n as int);
            assert(t.drop_first() =~= s@.subrange(start as int + 1, n as int));
        }
        start = start + 1;
    }
    let mut end: usize = n;
    while end > start && s[end - 1] == '-'
        invariant
            n == s@.len(),
            start <= end <= n,
            trim_start_hyphens(s@) == s@.subrange(start as int, n as int),
            trim_end_hyphens(s@.subrange(start as int, n as int)) == trim_end_hyphens(
                s@.subrange(start as int, end as int),
            ),
        decreases end - start,
    {
        proof {
            let t = s@.subrange(start as int, end as int);
            assert(t.drop_last() =~= s@.subrange(start as int, end as int - 1));
        }
        end = end - 1;
    }
    let mut out: Vec<char> = Vec::new();
    let mut k: usize = start;
    while k < end
        invariant
            start <= k <= end <= n,
            n == s@.len(),
            out@ == s@.subrange(start as int, k as int),
        decreases end - k,
    {
        out.push(s[k]);
        k = k + 1;
        assert(out@ =~= s@.subrange(start as int, k as int));
    }
    proof {
        let t = s@.subrange(start as int, end as int);
        assert(!(t.len() > 0 && t.last() == '-'));
    }
    out
}

/// Cuts to the maximum title length and drops trailing hyphens left by the cut.
fn cap_title(s: Vec<char>) -> (r: Vec<char>)
    ensures
        r@ == cap_length(s@),
{
    if s.len() <= MAX_TITLE_LEN {
        return s;
    }
    let mut end: usize = MAX_TITLE_LEN;
    while end > 0 && s[end - 1] == '-'
        invariant
            end <= MAX_TITLE_LEN < s@.len(),
            trim_end_hyphens(s@.take(MAX_TITLE_LEN as int)) == trim_end_hyphens(
                s@.take(end as int),
            ),
        decreases end,
    {
        proof {
            assert(s@.take(end as int).drop_last() =~= s@.take(end as int - 1));
        }
        end = end - 1;
    }
    let mut out: Vec<char> = Vec::new();
    let mut k: usize = 0;
    while k < end
        invariant
            k <= end <= MAX_TITLE_LEN < s@.len(),
            out@ == s@.take(k as int),
        decreases end - k,
    {
        out.push(s[k]);
        k = k + 1;
        assert(out@ =~= s@.take(k as int));
    }
    out
}

/// Turns the first line of a commit message into a branch-name title:
/// lower-cased, `[a-z0-9]` kept and every other run of characters made one
/// hyphen, no hyphen at either end, at most 50 characters, and `untitled` when
/// nothing is left.
pub fn sanitize_commit_title(commit_message: &str) -> (r: String)
    ensures
        r@ == title_of(commit_message@),
{
    let end = first_line_end(commit_message);
    let line = commit_message.substring_char(0, end);
    let lowered = lowercase(line);
    let chars = chars_of(lowered.as_str());
    let hyphenated = hyphenate_chars(&chars);
    let trimmed = trim_hyphens(&hyphenated);
    let capped = cap_title(trimmed);
    if capped.len() == 0 {
        let placeholder = String::from_str("untitled");
        proof {
            reveal_strlit("untitled");
            assert(placeholder@ =~= placeholder_title());
        }
        placeholder
    } else {
        string_from_chars(&capped)
    }
}

/// The branch name for a commit: `gitx/{username}/{title}`.
pub fn generate_branch_name(username: &str, commit_message: &str) -> (r: String)
    ensures
        r@ == branch_name_of(username@, commit_message@),
{
    let title = sanitize_commit_title(commit_message);
    let mut name = String::from_str("gitx/");
    name.append(username);
    name.append("/");
    name.append(title.as_str());
    proof {
        reveal_strlit("gitx/");
        reveal_strlit("/");
        assert(name@ =~= branch_name_of(username@, commit_message@));
    }
    name
}

proof fn lemma_slash_count_split(a: Seq<char>, b: Seq<char>)
    ensures
        slash_count(a + b) == slash_count(a) + slash_count(b),
    decreases b.len(),
{
    if b.len() == 0 {
        assert(a + b =~= a);
    } else {
        lemma_slash_count_split(a, b.drop_last());
        assert((a + b).drop_last() =~= a + b.drop_last());
    }
}

proof fn lemma_no_slash_count(s: Seq<char>)
    requires
        has_no_slash(s),
    ensures
        slash_count(s) == 0,
    decreases s.len(),
{
    if s.len() > 0 {
        lemma_no_slash_count(s.drop_last());
    }
}

/// Number of `/` characters in `s`.
fn count_slashes(s: &str) -> (r: usize)
    ensures
        r == slash_count(s@),
{
    let n = s.unicode_len();
    let mut count: usize = 0;
    let mut i: usize = 0;
    while i < n
        invariant
            n == s@.len(),
            i <= n,
            count == slash_count(s@.subrange(0, i as int)),
            count <= i,
        decreases n - i,
    {
        proof {
            assert(s@.subrange(0, i as int + 1).drop_last() =~= s@.subrange(0, i as int));
        }
        if s.get_char(i) == '/' {
            count = count + 1;
        }
        i = i + 1;
    }
    assert(s@.subrange(0, n as int) =~= s@);
    count
}

/// Whether `branch_name` lies in this tool's namespace: it starts with `gitx/`
/// and holds exactly two slashes.
pub fn is_transient_pr_branch(branch_name: &str) -> (r: bool)
    ensures
        r == is_transient_name(branch_name@),
{
    let n = branch_name.unicode_len();
    if n < 5 {
        return false;
    }
    let head = branch_name.substring_char(0, 5);
    let prefix_ok = crate::text::same_text(head, "gitx/");
    proof {
        reveal_strlit("gitx/");
        assert(head@ == branch_name@.take(5));
        assert("gitx/"@ =~= branch_prefix());
    }
    if !prefix_ok {
        return false;
    }
    count_slashes(branch_name) == 2
}

/// For a name in the namespace, the index of its second slash; the operator
/// segment lies before it and the title after it.
fn second_slash(b: &str) -> (j: usize)
    requires
        is_transient_name(b@),
    ensures
        5 <= j < b@.len(),
        b@[j as int] == '/',
        has_no_slash(b@.subrange(5, j as int)),
        has_no_slash(b@.subrange(j as int + 1, b@.len() as int)),
{
    let n = b.unicode_len();
    let mut j: usize = 5;
    proof {
        assert(b@.take(5) == branch_prefix());
        assert(b@.take(5)[4] == '/');
        assert(b@.take(5).drop_last() =~= seq!['g', 'i', 't', 'x']);
        lemma_no_slash_count(seq!['g', 'i', 't', 'x']);
        assert(slash_count(b@.take(5)) == 1);
    }
    while j < n && b.get_char(j) != '/'
        invariant
            n == b@.len(),
            5 <= j <= n,
            has_no_slash(b@.subrange(5, j as int)),
        decreases n - j,
    {
        proof {
            assert(b@.subrange(5, j as int + 1) =~= b@.subrange(5, j as int).push(b@[j as int]));
        }
        j = j + 1;
    }
    proof {
        if j == n {
            assert(b@ =~= b@.take(5) + b@.subrange(5, n as int));
            lemma_slash_count_split(b@.take(5), b@.subrange(5, n as int));
            lemma_no_slash_count(b@.subrange(5, n as int));
            assert(false);
        }
        let pre = b@.subrange(0, j as int + 1);
        let post = b@.subrange(j as int + 1, n as int);
        assert(b@ =~= pre + post);
        assert(pre =~= b@.take(5) + b@.subrange(5, j as int) + seq!['/']);
        lemma_slash_count_split(b@.take(5) + b@.subrange(5, j as int), seq!['/']);
        lemma_slash_count_split(b@.take(5), b@.subrange(5, j as int));
        lemma_no_slash_count(b@.subrange(5, j as int));
        assert(seq!['/'].drop_last() =~= Seq::<char>::empty());
        lemma_slash_count_split(pre, post);
        assert(slash_count(post) == 0);
        if !has_no_slash(post) {
            let k = choose|k: int| 0 <= k < post.len() && post[k] == '/';
            assert(post =~= post.take(k + 1) + post.skip(k + 1));
            lemma_slash_count_split(post.take(k + 1), post.skip(k + 1));
            assert(post.take(k + 1).last() == '/');
        }
    }
    j
}

/// The operator segment of a name in the namespace, or `None` for any other
/// name.
pub fn extract_username(branch_name: &str) -> (r: Option<&str>)
    ensures
        match r {
            None => !is_transient_name(branch_name@),
            Some(u) => {
                &&& is_transient_name(branch_name@)
                &&& has_no_slash(u@)
                &&& exists|f: Seq<char>|
                    has_no_slash(f) && branch_name@ == branch_prefix() + u@ + seq!['/'] + f
            },
        },
{
    if !is_transient_pr_branch(branch_name) {
        return None;
    }
    let j = second_slash(branch_name);
    let n = branch_name.unicode_len();
    let u = branch_name.substring_char(5, j);
    proof {
        let f = branch_name@.subrange(j as int + 1, n as int);
        assert(branch_name@ =~= branch_prefix() + u@ + seq!['/'] + f);
    }
    Some(u)
}

/// The title segment of a name in the namespace, or `None` for any other name.
pub fn extract_feature_name(branch_name: &str) -> (r: Option<&str>)
    ensures
        match r {
            None => !is_transient_name(branch_name@),
            Some(f) => {
                &&& is_transient_name(branch_name@)
                &&& has_no_slash(f@)
                &&& exists|u: Seq<char>|
                    has_no_slash(u) && branch_name@ == branch_prefix() + u + seq!['/'] + f@
            },
        },
{
    if !is_transient_pr_branch(branch_name) {
        return None;
    }
    let j = second_slash(branch_name);
    let n = branch_name.unicode_len();
    let f = branch_name.substring_char(j + 1, n);
    proof {
        let u = branch_name@.subrange(5, j as int);
        assert(branch_name@ =~= branch_prefix() + u + seq!['/'] + f@);
    }
    Some(f)
}

} // verus!
