//! The body of a pull request, generated from its tracking record and the
//! full commit message.

use vstd::prelude::*;
use vstd::string::*;

use crate::metadata::{CommitMetadata, IncrementalCommitType, IncrementalCommitView, CommitMetadataView, Timestamp};
use crate::text::{chars_of, push_decimal, push_text, string_from_chars, decimal_of};

verus! {

/// What `chrono` renders for this instant with the pattern
/// `%Y-%m-%d %H:%M UTC` (empty when `chrono` cannot represent it).
pub uninterp spec fn minute_text(seconds: i64, nanos: u32) -> Seq<char>;

/// Relies on `chrono::DateTime::from_timestamp` and `DateTime::format`: the
/// instant rendered as `%Y-%m-%d %H:%M UTC`, which depends on the instant
/// alone.
#[verifier::external_body]
fn format_minute(t: Timestamp) -> (r: String)
    ensures
        r@ == minute_text(t.seconds, t.nanos),
{
    match chrono::DateTime::from_timestamp(t.seconds, t.nanos) {
        Some(d) => d.format("%Y-%m-%d %H:%M UTC").to_string(),
        None => String::new(),
    }
}

/// The pieces of a text between line breaks (one more than there are breaks).
pub open spec fn pieces(m: Seq<char>) -> Seq<Seq<char>>
    decreases m.len(),
{
    if m.len() == 0 {
        seq![Seq::empty()]
    } else {
        let p = pieces(m.drop_last());
        if m.last() == '\n' {
            p.push(Seq::empty())
        } else {
            p.update(p.len() - 1, p.last().push(m.last()))
        }
    }
}

pub open spec fn strip_cr(l: Seq<char>) -> Seq<char> {
    if l.len() > 0 && l.last() == '\r' {
        l.drop_last()
    } else {
        l
    }
}

/// The lines of a text as `str::lines` gives them: a `\n` or `\r\n` ends a
/// line, and a final line break adds no empty line.
pub open spec fn lines_of(m: Seq<char>) -> Seq<Seq<char>> {
    let p = pieces(m);
    Seq::new((p.len() - 1) as nat, |i: int| strip_cr(p[i])) + if p.last().len() > 0 {
        seq![p.last()]
    } else {
        Seq::empty()
    }
}

/// Lines joined with `\n` between them.
pub open spec fn join_lines(ls: Seq<Seq<char>>) -> Seq<char>
    decreases ls.len(),
{
    if ls.len() == 0 {
        Seq::empty()
    } else if ls.len() == 1 {
        ls[0]
    } else {
        join_lines(ls.drop_last()) + "\n"@ + ls.last()
    }
}

/// The label of an update kind.
pub open spec fn kind_label(k: IncrementalCommitType) -> Seq<char> {
    match k {
        IncrementalCommitType::AmendedCommit => "Amended"@,
        IncrementalCommitType::AdditionalCommit => "Additional"@,
    }
}

/// The first line of a message, empty when it has none.
pub open spec fn headline(m: Seq<char>) -> Seq<char> {
    if lines_of(m).len() > 0 {
        lines_of(m)[0]
    } else {
        Seq::empty()
    }
}

/// The entry of the update at `index` (counted from zero).
pub open spec fn update_entry(index: nat, u: IncrementalCommitView) -> Seq<char> {
    decimal_of(index + 1) + ". **"@ + kind_label(u.commit_type) + "** ("@ + minute_text(
        u.created_at.seconds,
        u.created_at.nanos,
    ) + ")\n   - "@ + headline(u.message) + "\n"@
}

/// The entries of all updates, in recorded order.
pub open spec fn updates_text(us: Seq<IncrementalCommitView>) -> Seq<char>
    decreases us.len(),
{
    if us.len() == 0 {
        Seq::empty()
    } else {
        updates_text(us.drop_last()) + update_entry((us.len() - 1) as nat, us.last())
    }
}

/// The body of a pull request: the message's description (its lines after the
/// first), the updates in recorded order, and a footer with the branch and
/// the times.
pub open spec fn pr_body_of(meta: CommitMetadataView, message: Seq<char>) -> Seq<char> {
    let ls = lines_of(message);
    let us = meta.incremental_commits;
    (if ls.len() > 1 {
        "## Description\n\n"@ + join_lines(ls.skip(1)) + "\n\n"@
    } else {
        Seq::empty()
    }) + (if us.len() > 0 {
        "## Updates\n\n"@ + updates_text(us) + "\n"@
    } else {
        Seq::empty()
    }) + "---\n"@ + "*Generated by gitx - Branch: `"@ + meta.pr_branch_name + "`*\n"@
        + "*Created: "@ + minute_text(meta.created_at.seconds, meta.created_at.nanos) + "*\n"@
        + if us.len() > 0 {
        "*Last updated: "@ + minute_text(meta.last_updated.seconds, meta.last_updated.nanos)
            + "*\n"@
    } else {
        Seq::empty()
    }
}

proof fn lemma_pieces_nonempty(m: Seq<char>)
    ensures
        pieces(m).len() >= 1,
    decreases m.len(),
{
    if m.len() > 0 {
        lemma_pieces_nonempty(m.drop_last());
    }
}

pub open spec fn lines_view(v: Seq<Vec<char>>) -> Seq<Seq<char>> {
    v.map_values(|l: Vec<char>| l@)
}

/// The lines of `m` as `str::lines` gives them.
pub fn text_lines(m: &str) -> (r: Vec<Vec<char>>)
    ensures
        lines_view(r@) == lines_of(m@),
{
    let all = chars_of(m);
    let mut done: Vec<Vec<char>> = Vec::new();
    let mut cur: Vec<char> = Vec::new();
    let mut i: usize = 0;
    while i < all.len()
        invariant
            all@ == m@,
            i <= all@.len(),
            lines_view(done@).push(cur@) == pieces(m@.take(i as int)),
        decreases all@.len() - i,
    {
        proof {
            assert(m@.take(i as int + 1).drop_last() =~= m@.take(i as int));
            lemma_pieces_nonempty(m@.take(i as int));
        }
        let c = all[i];
        if c == '\n' {
            let ghost before = done@;
            let ghost old_cur = cur@;
            done.push(cur);
            cur = Vec::new();
            proof {
                assert(lines_view(done@) =~= lines_view(before).push(old_cur));
                assert(lines_view(done@).push(cur@) =~= pieces(m@.take(i as int)).push(
                    Seq::empty(),
                ));
            }
        } else {
            let ghost old_cur = cur@;
            cur.push(c);
            proof {
                let p = pieces(m@.take(i as int));
                assert(lines_view(done@).push(cur@) =~= p.update(
                    p.len() - 1,
                    p.last().push(c),
                ));
            }
        }
        i = i + 1;
    }
    let ghost p = pieces(m@);
    proof {
        assert(m@.take(all@.len() as int) =~= m@);
        lemma_pieces_nonempty(m@);
        assert(lines_view(done@) =~= p.drop_last());
    }
    let mut out: Vec<Vec<char>> = Vec::new();
    let mut k: usize = 0;
    while k < done.len()
        invariant
            k <= done@.len(),
            lines_view(done@) == p.drop_last(),
            p.len() >= 1,
            out@.len() == k,
            forall|j: int| 0 <= j < k ==> (#[trigger] out@[j])@ == strip_cr(p[j]),
        decreases done@.len() - k,
    {
        let l = &done[k];
        let mut line: Vec<char> = Vec::new();
        let mut j: usize = 0;
        let len = l.len();
        let keep = if len > 0 && l[len - 1] == '\r' { len - 1 } else { len };
        while j < keep
            invariant
                keep <= len == l@.len(),
                j <= keep,
                line@ == l@.take(j as int),
            decreases keep - j,
        {
            line.push(l[j]);
            j = j + 1;
            assert(line@ =~= l@.take(j as int));
        }
        proof {
            assert(lines_view(done@).len() == done@.len());
            assert(lines_view(done@)[k as int] == done@[k as int]@);
            assert(k < p.len() - 1);
            assert(p.drop_last()[k as int] == p[k as int]);
            assert(l@ == p[k as int]);
            if len > 0 && l@[len - 1] == '\r' {
                assert(line@ =~= l@.drop_last());
            } else {
                assert(line@ =~= l@);
            }
        }
        out.push(line);
        k = k + 1;
    }
    if cur.len() > 0 {
        out.push(cur);
    }
    proof {
        assert(p.last() == cur@);
        assert(lines_view(out@) =~= lines_of(m@));
    }
    out
}

/// The label of an update kind for a pull request body.
pub fn format_commit_type(commit_type: &IncrementalCommitType) -> (r: &'static str)
    ensures
        r@ == kind_label(*commit_type),
{
    match commit_type {
        IncrementalCommitType::AmendedCommit => "Amended",
        IncrementalCommitType::AdditionalCommit => "Additional",
    }
}

fn push_lines_joined(out: &mut Vec<char>, ls: &Vec<Vec<char>>, from: usize)
    requires
        from <= ls@.len(),
    ensures
        final(out)@ == old(out)@ + join_lines(lines_view(ls@).skip(from as int)),
{
    let ghost rest = lines_view(ls@).skip(from as int);
    let mut i: usize = from;
    while i < ls.len()
        invariant
            from <= i <= ls@.len(),
            rest == lines_view(ls@).skip(from as int),
            out@ == old(out)@ + join_lines(rest.take(i - from)),
        decreases ls@.len() - i,
    {
        proof {
            assert(rest.take(i - from + 1).drop_last() =~= rest.take(i - from));
            assert(rest.take(i - from + 1).last() == ls@[i as int]@);
        }
        if i > from {
            push_text(out, "\n");
        }
        let l = &ls[i];
        let mut j: usize = 0;
        let ghost mid = out@;
        while j < l.len()
            invariant
                j <= l@.len(),
                out@ == mid + l@.take(j as int),
            decreases l@.len() - j,
        {
            out.push(l[j]);
            j = j + 1;
            assert(out@ =~= mid + l@.take(j as int));
        }
        proof {
            assert(l@.take(l@.len() as int) =~= l@);
            if i > from {
                assert(out@ =~= old(out)@ + join_lines(rest.take(i - from + 1)));
            } else {
                assert(rest.take(1) =~= seq![l@]);
                assert(out@ =~= old(out)@ + join_lines(rest.take(i - from + 1)));
            }
        }
        i = i + 1;
    }
    assert(rest.take(ls@.len() - from) =~= rest);
}

fn push_chars(out: &mut Vec<char>, v: &Vec<char>)
    ensures
        final(out)@ == old(out)@ + v@,
{
    let mut j: usize = 0;
    while j < v.len()
        invariant
            j <= v@.len(),
            out@ == old(out)@ + v@.take(j as int),
        decreases v@.len() - j,
    {
        out.push(v[j]);
        j = j + 1;
        assert(out@ =~= old(out)@ + v@.take(j as int));
    }
    assert(v@.take(v@.len() as int) =~= v@);
}

fn push_update_entry(out: &mut Vec<char>, index: usize, u: &crate::metadata::IncrementalCommit)
    requires
        index < usize::MAX,
    ensures
        final(out)@ == old(out)@ + update_entry(index as nat, u@),
{
    push_decimal(out, index as u64 + 1);
    push_text(out, ". **");
    push_text(out, format_commit_type(&u.commit_type));
    push_text(out, "** (");
    let t = format_minute(u.created_at);
    push_text(out, t.as_str());
    push_text(out, ")\n   - ");
    let ls = text_lines(u.message.as_str());
    if ls.len() > 0 {
        push_chars(out, &ls[0]);
    }
    push_text(out, "\n");
    proof {
        assert(index as u64 + 1 == index + 1);
        if lines_of(u.message@).len() > 0 {
            assert(ls@[0]@ == lines_of(u.message@)[0]);
        }
        assert(final(out)@ =~= old(out)@ + update_entry(index as nat, u@));
    }
}

/// The body of the pull request of `metadata`, for a commit with the full
/// message `commit_message`.
pub fn generate_pr_body(metadata: &CommitMetadata, commit_message: &str) -> (r: String)
    ensures
        r@ == pr_body_of(metadata@, commit_message@),
{
    let mut out: Vec<char> = Vec::new();
    let ls = text_lines(commit_message);
    if ls.len() > 1 {
        push_text(&mut out, "## Description\n\n");
        push_lines_joined(&mut out, &ls, 1);
        push_text(&mut out, "\n\n");
    }
    let ghost after_description = out@;
    let us = &metadata.incremental_commits;
    let ghost uv = metadata@.incremental_commits;
    if us.len() > 0 {
        push_text(&mut out, "## Updates\n\n");
        let ghost start = out@;
        let mut i: usize = 0;
        while i < us.len()
            invariant
                i <= us@.len(),
                uv == us@.map_values(|c: crate::metadata::IncrementalCommit| c@),
                out@ == start + updates_text(uv.take(i as int)),
            decreases us@.len() - i,
        {
            proof {
                assert(uv.take(i as int + 1).drop_last() =~= uv.take(i as int));
                assert(uv.take(i as int + 1).last() == us@[i as int]@);
            }
            push_update_entry(&mut out, i, &us[i]);
            i = i + 1;
        }
        assert(uv.take(us@.len() as int) =~= uv);
        push_text(&mut out, "\n");
    }
    let ghost after_updates = out@;
    push_text(&mut out, "---\n");
    push_text(&mut out, "*Generated by gitx - Branch: `");
    push_text(&mut out, metadata.pr_branch_name.as_str());
    push_text(&mut out, "`*\n");
    push_text(&mut out, "*Created: ");
    let created = format_minute(metadata.created_at);
    push_text(&mut out, created.as_str());
    push_text(&mut out, "*\n");
    if us.len() > 0 {
        push_text(&mut out, "*Last updated: ");
        let updated = format_minute(metadata.last_updated);
        push_text(&mut out, updated.as_str());
        push_text(&mut out, "*\n");
    }
    proof {
        let lsv = lines_of(commit_message@);
        assert(lines_view(ls@).skip(1) == lsv.skip(1));
        assert(out@ =~= pr_body_of(metadata@, commit_message@));
    }
    string_from_chars(&out)
}

} // verus!
