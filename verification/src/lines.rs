//! Pattern-based line editing for manifest formats without a structured
//! parser: find the first line a pattern matches and the version it captures,
//! replace one line, and render the edited lines back to file content that
//! ends with a newline.

use vstd::prelude::*;
use vstd::string::StringExecFns;

verus! {

/// What applying a capture pattern to a line yields: `None` when the line
/// does not match, `Some(None)` when it matches but the first capture group
/// took part in no match, and `Some(Some(v))` when the group captured `v`.
/// The outcome is a function of the pattern and the line alone.
pub uninterp spec fn capture_of(pattern: Seq<char>, line: Seq<char>) -> Option<Option<Seq<char>>>;

/// The view of an executable capture outcome.
pub open spec fn capture_view(r: Option<Option<String>>) -> Option<Option<Seq<char>>> {
    match r {
        Some(Some(s)) => Some(Some(s@)),
        Some(None) => Some(Option::<Seq<char>>::None),
        None => Option::<Option<Seq<char>>>::None,
    }
}

/// Relies on regex::Regex::new and regex::Regex::captures: the pattern is
/// compiled and run against the line, and group 1 of the first match is
/// handed back; both are deterministic in the pattern and the line, so the
/// outcome is named by `capture_of`. A pattern that does not compile matches
/// no line.
#[verifier::external_body]
fn apply_pattern(pattern: &str, line: &str) -> (r: Option<Option<String>>)
    ensures
        capture_view(r) == capture_of(pattern@, line@),
{
    match regex::Regex::new(pattern) {
        Ok(re) => match re.captures(line) {
            Some(caps) => match caps.get(1) {
                Some(group) => Some(Some(group.as_str().to_string())),
                None => Some(None),
            },
            None => None,
        },
        Err(_) => None,
    }
}

/// Why a pattern search over the lines failed: no line matched at all, or the
/// first matching line carried no captured value.
#[derive(Debug, PartialEq, Eq, Clone, Copy, Structural)]
pub enum LineError {
    NoMatch,
    CaptureMissing,
}

/// Position of the first line the pattern matches, or `-1`.
pub open spec fn first_match_index(pattern: Seq<char>, lines: Seq<String>) -> int
    decreases lines.len(),
{
    if lines.len() == 0 {
        -1
    } else if capture_of(pattern, lines[0]@) is Some {
        0
    } else {
        let r = first_match_index(pattern, lines.drop_first());
        if r < 0 {
            -1
        } else {
            r + 1
        }
    }
}

/// `first_match_index` names the first matching line: it stays in bounds,
/// lands on a match, and nothing before it matches.
pub proof fn lemma_first_match_index(pattern: Seq<char>, lines: Seq<String>)
    ensures
        ({
            let k = first_match_index(pattern, lines);
            &&& -1 <= k < lines.len()
            &&& k >= 0 ==> capture_of(pattern, lines[k]@) is Some
            &&& forall|j: int|
                0 <= j < lines.len() && (k == -1 || j < k) ==> capture_of(
                    pattern,
                    (#[trigger] lines[j])@,
                ) is None
        }),
    decreases lines.len(),
{
    if lines.len() > 0 && capture_of(pattern, lines[0]@) is None {
        lemma_first_match_index(pattern, lines.drop_first());
        let r = first_match_index(pattern, lines.drop_first());
        let k = first_match_index(pattern, lines);
        assert(forall|j: int|
            0 <= j < lines.len() - 1 ==> #[trigger] lines.drop_first()[j] == lines[j + 1]);
        if r >= 0 {
            assert(lines.drop_first()[r] == lines[r + 1]);
        }
        assert forall|j: int|
            0 <= j < lines.len() && (k == -1 || j < k) implies capture_of(
            pattern,
            (#[trigger] lines[j])@,
        ) is None by {
            if j >= 1 {
                assert(lines.drop_first()[j - 1] == lines[j]);
            }
        }
    }
}

/// What the search yields: the index of the first matching line together
/// with the captured version, or why there is none.
pub open spec fn spec_find(pattern: Seq<char>, lines: Seq<String>) -> Result<
    (int, Seq<char>),
    LineError,
> {
    let k = first_match_index(pattern, lines);
    if k < 0 {
        Err(LineError::NoMatch)
    } else {
        match capture_of(pattern, lines[k]@) {
            Some(Some(v)) => Ok((k, v)),
            _ => Err(LineError::CaptureMissing),
        }
    }
}

/// Scan the lines in order and report the first one the pattern matches,
/// with the version substring its capture group holds.
pub fn find_version_line(lines: &Vec<String>, pattern: &str) -> (r: Result<
    (usize, String),
    LineError,
>)
    ensures
        match r {
            Ok((i, v)) => spec_find(pattern@, lines@) == Ok::<(int, Seq<char>), LineError>(
                (i as int, v@),
            ),
            Err(e) => spec_find(pattern@, lines@) == Err::<(int, Seq<char>), LineError>(e),
        },
{
    proof {
        lemma_first_match_index(pattern@, lines@);
    }
    let ghost k = first_match_index(pattern@, lines@);
    let mut i: usize = 0;
    while i < lines.len()
        invariant
            0 <= i <= lines@.len(),
            k == first_match_index(pattern@, lines@),
            -1 <= k < lines@.len(),
            k >= 0 ==> capture_of(pattern@, lines@[k]@) is Some,
            forall|j: int|
                0 <= j < lines@.len() && (k == -1 || j < k) ==> capture_of(
                    pattern@,
                    (#[trigger] lines@[j])@,
                ) is None,
            forall|j: int|
                0 <= j < i ==> capture_of(pattern@, (#[trigger] lines@[j])@) is None,
        decreases lines@.len() - i,
    {
        match apply_pattern(pattern, lines[i].as_str()) {
            Some(captured) => {
                assert(k == i);
                match captured {
                    Some(v) => {
                        return Ok((i, v));
                    },
                    None => {
                        return Err(LineError::CaptureMissing);
                    },
                }
            },
            None => {},
        }
        i = i + 1;
    }
    assert(k == -1);
    Err(LineError::NoMatch)
}

/// The lines with the one at `index` replaced by `new_line`; every other
/// line is kept as it was.
pub fn replace_line(lines: &Vec<String>, index: usize, new_line: String) -> (r: Vec<String>)
    requires
        index < lines@.len(),
    ensures
        r@.len() == lines@.len(),
        r@[index as int] == new_line,
        forall|j: int| 0 <= j < lines@.len() && j != index ==> r@[j] == #[trigger] lines@[j],
{
    let mut out: Vec<String> = Vec::new();
    let mut i: usize = 0;
    while i < lines.len()
        invariant
            index < lines@.len(),
            0 <= i <= lines@.len(),
            out@.len() == i,
            i > index ==> out@[index as int] == new_line,
            forall|j: int| 0 <= j < i && j != index ==> out@[j] == #[trigger] lines@[j],
        decreases lines@.len() - i,
    {
        if i == index {
            out.push(new_line.clone());
        } else {
            out.push(lines[i].clone());
        }
        i = i + 1;
    }
    out
}

/// The lines joined so that every line, the last included, is followed by a
/// newline; the empty line list renders as empty content.
pub open spec fn joined_with_newlines(lines: Seq<Seq<char>>) -> Seq<char>
    decreases lines.len(),
{
    if lines.len() == 0 {
        Seq::<char>::empty()
    } else {
        joined_with_newlines(lines.drop_last()) + lines.last() + seq!['\n']
    }
}

/// Non-empty rendered content ends with a newline.
pub proof fn lemma_joined_ends_with_newline(lines: Seq<Seq<char>>)
    requires
        lines.len() > 0,
    ensures
        joined_with_newlines(lines).len() > 0,
        joined_with_newlines(lines).last() == '\n',
{
}

/// Render the lines to file content, a newline after every line.
pub fn render_content(lines: &Vec<String>) -> (s: String)
    ensures
        s@ == joined_with_newlines(lines.deep_view()),
{
    let mut s = String::new();
    let mut i: usize = 0;
    proof {
        assert(lines.deep_view().subrange(0, 0) =~= Seq::<Seq<char>>::empty());
    }
    while i < lines.len()
        invariant
            0 <= i <= lines@.len(),
            lines.deep_view().len() == lines@.len(),
            s@ == joined_with_newlines(lines.deep_view().subrange(0, i as int)),
        decreases lines@.len() - i,
    {
        s.append(lines[i].as_str());
        s.append("\n");
        proof {
            reveal_strlit("\n");
            let dv = lines.deep_view();
            assert(dv.subrange(0, i + 1).drop_last() =~= dv.subrange(0, i as int));
            assert(dv.subrange(0, i + 1).last() == dv[i as int]);
            assert(dv[i as int] == lines@[i as int]@);
            assert("\n"@ =~= seq!['\n']);
            assert(s@ =~= joined_with_newlines(dv.subrange(0, i + 1)));
        }
        i = i + 1;
    }
    proof {
        assert(lines.deep_view().subrange(0, lines@.len() as int) =~= lines.deep_view());
    }
    s
}

} // verus!
