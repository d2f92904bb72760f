//! Commit-to-bump-level classification: each commit message resolves to a
//! severity on its own, and a commit list resolves to the maximum severity
//! over its commits.

use vstd::prelude::*;
use crate::text::{seq_contains, str_contains, str_starts_with};

verus! {

/// Severity of a set of commits; drives which version component increments.
#[derive(Debug, PartialEq, Eq, PartialOrd, Ord, Clone, Copy, Structural)]
pub enum BumpLevel {
    NoBump,
    Patch,
    Minor,
    Major,
}

/// One commit message: the summary line and, when present, the message body.
pub struct Commit {
    pub summary: String,
    pub body: Option<String>,
}

/// Numeric rank of a bump level; the total order `NoBump < Patch < Minor < Major`.
pub open spec fn level_rank(l: BumpLevel) -> int {
    match l {
        BumpLevel::NoBump => 0,
        BumpLevel::Patch => 1,
        BumpLevel::Minor => 2,
        BumpLevel::Major => 3,
    }
}

/// The larger of two bump levels under the severity order.
pub open spec fn spec_level_max(a: BumpLevel, b: BumpLevel) -> BumpLevel {
    if level_rank(a) >= level_rank(b) {
        a
    } else {
        b
    }
}

/// Some token in `tokens` is a prefix of `summary`.
pub open spec fn has_prefix_token(tokens: Seq<String>, summary: Seq<char>) -> bool {
    exists|i: int| 0 <= i < tokens.len() && (#[trigger] tokens[i])@.is_prefix_of(summary)
}

/// The commit body carries the literal breaking-change marker.
pub open spec fn has_breaking_marker(c: Commit) -> bool {
    c.body matches Some(b) && seq_contains(b@, "BREAKING CHANGE:"@)
}

/// Severity of a single commit: a breaking-change marker in the body wins,
/// then a patch-token prefix of the summary, then a minor-token prefix.
pub open spec fn commit_level(c: Commit, patch_tokens: Seq<String>, minor_tokens: Seq<String>) -> BumpLevel {
    if has_breaking_marker(c) {
        BumpLevel::Major
    } else if has_prefix_token(patch_tokens, c.summary@) {
        BumpLevel::Patch
    } else if has_prefix_token(minor_tokens, c.summary@) {
        BumpLevel::Minor
    } else {
        BumpLevel::NoBump
    }
}

/// Severity of a commit list: the maximum of the per-commit severities
/// (`BumpLevel::NoBump` for the empty list).
pub open spec fn classify_spec(
    commits: Seq<Commit>,
    patch_tokens: Seq<String>,
    minor_tokens: Seq<String>,
) -> BumpLevel
    decreases commits.len(),
{
    if commits.len() == 0 {
        BumpLevel::NoBump
    } else {
        spec_level_max(
            classify_spec(commits.drop_last(), patch_tokens, minor_tokens),
            commit_level(commits.last(), patch_tokens, minor_tokens),
        )
    }
}

/// Rank of a bump level as a machine integer.
pub fn level_value(l: BumpLevel) -> (r: u8)
    ensures
        r as int == level_rank(l),
{
    match l {
        BumpLevel::NoBump => 0,
        BumpLevel::Patch => 1,
        BumpLevel::Minor => 2,
        BumpLevel::Major => 3,
    }
}

/// The larger of two bump levels.
pub fn level_max(a: BumpLevel, b: BumpLevel) -> (r: BumpLevel)
    ensures
        r == spec_level_max(a, b),
{
    if level_value(a) >= level_value(b) {
        a
    } else {
        b
    }
}

/// Severity of one commit under the given token sets.
fn summary_to_bumplevel(
    c: &Commit,
    patch_tokens: &Vec<String>,
    minor_tokens: &Vec<String>,
) -> (r: BumpLevel)
    ensures
        r == commit_level(*c, patch_tokens@, minor_tokens@),
{
    let breaking: bool = match &c.body {
        Some(b) => str_contains(b.as_str(), "BREAKING CHANGE:"),
        None => false,
    };
    if breaking {
        return BumpLevel::Major;
    }
    assert(!has_breaking_marker(*c));
    let mut i: usize = 0;
    while i < patch_tokens.len()
        invariant
            !has_breaking_marker(*c),
            0 <= i <= patch_tokens@.len(),
            forall|k: int|
                0 <= k < i ==> !(#[trigger] patch_tokens@[k])@.is_prefix_of(c.summary@),
        decreases patch_tokens@.len() - i,
    {
        if str_starts_with(c.summary.as_str(), patch_tokens[i].as_str()) {
            assert(has_prefix_token(patch_tokens@, c.summary@));
            return BumpLevel::Patch;
        }
        i = i + 1;
    }
    let mut i: usize = 0;
    while i < minor_tokens.len()
        invariant
            !has_breaking_marker(*c),
            0 <= i <= minor_tokens@.len(),
            !has_prefix_token(patch_tokens@, c.summary@),
            forall|k: int|
                0 <= k < i ==> !(#[trigger] minor_tokens@[k])@.is_prefix_of(c.summary@),
        decreases minor_tokens@.len() - i,
    {
        if str_starts_with(c.summary.as_str(), minor_tokens[i].as_str()) {
            assert(has_prefix_token(minor_tokens@, c.summary@));
            return BumpLevel::Minor;
        }
        i = i + 1;
    }
    BumpLevel::NoBump
}

/// Severity of a non-empty commit list: the maximum per-commit severity.
pub fn calc_bumplevel(
    commits: &Vec<Commit>,
    patch_tokens: &Vec<String>,
    minor_tokens: &Vec<String>,
) -> (r: BumpLevel)
    requires
        commits@.len() > 0,
    ensures
        r == classify_spec(commits@, patch_tokens@, minor_tokens@),
{
    let mut level = BumpLevel::NoBump;
    let mut i: usize = 0;
    while i < commits.len()
        invariant
            0 <= i <= commits@.len(),
            level == classify_spec(commits@.subrange(0, i as int), patch_tokens@, minor_tokens@),
        decreases commits@.len() - i,
    {
        let cl = summary_to_bumplevel(&commits[i], patch_tokens, minor_tokens);
        level = level_max(level, cl);
        proof {
            let pre = commits@.subrange(0, i as int);
            let post = commits@.subrange(0, i + 1);
            assert(post.drop_last() =~= pre);
            assert(post.last() == commits@[i as int]);
        }
        i = i + 1;
    }
    proof {
        assert(commits@.subrange(0, commits@.len() as int) =~= commits@);
    }
    level
}

/// The classified severity of a list is an upper bound on every per-commit
/// severity, and is attained by some commit of the list.
pub proof fn lemma_classify_is_max(
    commits: Seq<Commit>,
    patch_tokens: Seq<String>,
    minor_tokens: Seq<String>,
)
    requires
        commits.len() > 0,
    ensures
        forall|i: int|
            0 <= i < commits.len() ==> level_rank(
                #[trigger] commit_level(commits[i], patch_tokens, minor_tokens),
            ) <= level_rank(classify_spec(commits, patch_tokens, minor_tokens)),
        exists|i: int|
            0 <= i < commits.len() && #[trigger] commit_level(commits[i], patch_tokens, minor_tokens)
                == classify_spec(commits, patch_tokens, minor_tokens),
    decreases commits.len(),
{
    if commits.len() == 1 {
        assert(commits.drop_last().len() == 0);
        assert(commits[0] == commits.last());
    } else {
        lemma_classify_is_max(commits.drop_last(), patch_tokens, minor_tokens);
        let pre = commits.drop_last();
        assert forall|i: int|
            0 <= i < commits.len() implies level_rank(
            #[trigger] commit_level(commits[i], patch_tokens, minor_tokens),
        ) <= level_rank(classify_spec(commits, patch_tokens, minor_tokens)) by {
            if i < pre.len() {
                assert(pre[i] == commits[i]);
            }
        }
        let j = choose|j: int|
            0 <= j < pre.len() && #[trigger] commit_level(pre[j], patch_tokens, minor_tokens)
                == classify_spec(pre, patch_tokens, minor_tokens);
        if level_rank(classify_spec(pre, patch_tokens, minor_tokens)) >= level_rank(
            commit_level(commits.last(), patch_tokens, minor_tokens),
        ) {
            assert(commit_level(commits[j], patch_tokens, minor_tokens) == classify_spec(
                commits,
                patch_tokens,
                minor_tokens,
            ));
        } else {
            assert(commit_level(commits[commits.len() - 1], patch_tokens, minor_tokens)
                == classify_spec(commits, patch_tokens, minor_tokens));
        }
    }
}

/// Appending a commit to a list never decreases the classified severity, and
/// appending a `Major`-level commit makes the severity `Major`.
pub proof fn lemma_classify_monotone_push(
    commits: Seq<Commit>,
    c: Commit,
    patch_tokens: Seq<String>,
    minor_tokens: Seq<String>,
)
    ensures
        level_rank(classify_spec(commits, patch_tokens, minor_tokens)) <= level_rank(
            classify_spec(commits.push(c), patch_tokens, minor_tokens),
        ),
        commit_level(c, patch_tokens, minor_tokens) == BumpLevel::Major ==> classify_spec(
            commits.push(c),
            patch_tokens,
            minor_tokens,
        ) == BumpLevel::Major,
{
    let pushed = commits.push(c);
    assert(pushed.drop_last() =~= commits);
    assert(pushed.last() == c);
}

} // verus!
