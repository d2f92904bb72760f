//! Character-sequence primitives shared by the version parser, the commit
//! classifier and the line editor: prefix / suffix / substring tests.

use vstd::prelude::*;
use vstd::string::StrSliceExecFns;

verus! {

/// `needle` occurs as a contiguous subsequence of `hay`.
pub open spec fn seq_contains(hay: Seq<char>, needle: Seq<char>) -> bool {
    exists|i: int|
        0 <= i && i + needle.len() <= hay.len() && #[trigger] hay.subrange(i, i + needle.len())
            == needle
}

/// Whether `hay` starts with `needle` at position `i` (character-wise).
pub open spec fn matches_at(hay: Seq<char>, needle: Seq<char>, i: int) -> bool {
    &&& 0 <= i
    &&& i + needle.len() <= hay.len()
    &&& forall|j: int| 0 <= j < needle.len() ==> hay[i + j] == needle[j]
}

proof fn lemma_matches_at_subrange(hay: Seq<char>, needle: Seq<char>, i: int)
    requires
        0 <= i,
        i + needle.len() <= hay.len(),
    ensures
        matches_at(hay, needle, i) <==> hay.subrange(i, i + needle.len()) == needle,
{
    if matches_at(hay, needle, i) {
        assert(hay.subrange(i, i + needle.len()) =~= needle);
    }
    if hay.subrange(i, i + needle.len()) == needle {
        assert forall|j: int| 0 <= j < needle.len() implies hay[i + j] == needle[j] by {
            assert(hay.subrange(i, i + needle.len())[j] == hay[i + j]);
        }
    }
}

/// Does `s` start with `prefix`?
pub fn str_starts_with(s: &str, prefix: &str) -> (r: bool)
    ensures
        r == prefix@.is_prefix_of(s@),
{
    let n = s.unicode_len();
    let m = prefix.unicode_len();
    if m > n {
        return false;
    }
    let mut j: usize = 0;
    while j < m
        invariant
            m <= n,
            n == s@.len(),
            m == prefix@.len(),
            0 <= j <= m,
            forall|k: int| 0 <= k < j ==> s@[k] == prefix@[k],
        decreases m - j,
    {
        if s.get_char(j) != prefix.get_char(j) {
            assert(s@.subrange(0, m as int)[j as int] != prefix@[j as int]);
            return false;
        }
        j = j + 1;
    }
    assert(prefix@ =~= s@.subrange(0, m as int));
    true
}

/// Does `s` end with `suffix`?
pub fn str_ends_with(s: &str, suffix: &str) -> (r: bool)
    ensures
        r == suffix@.is_suffix_of(s@),
{
    let n = s.unicode_len();
    let m = suffix.unicode_len();
    if m > n {
        return false;
    }
    let off = n - m;
    let mut j: usize = 0;
    while j < m
        invariant
            m <= n,
            n == s@.len(),
            m == suffix@.len(),
            off == n - m,
            0 <= j <= m,
            forall|k: int| 0 <= k < j ==> s@[off + k] == suffix@[k],
        decreases m - j,
    {
        if s.get_char(off + j) != suffix.get_char(j) {
            assert(s@.subrange(off as int, n as int)[j as int] != suffix@[j as int]);
            return false;
        }
        j = j + 1;
    }
    assert(suffix@ =~= s@.subrange(off as int, n as int));
    true
}

/// Does `needle` occur anywhere in `hay`?
pub fn str_contains(hay: &str, needle: &str) -> (r: bool)
    ensures
        r == seq_contains(hay@, needle@),
{
    let n = hay.unicode_len();
    let m = needle.unicode_len();
    if m > n {
        assert(!seq_contains(hay@, needle@));
        return false;
    }
    let mut i: usize = 0;
    while i <= n - m
        invariant
            m <= n,
            n == hay@.len(),
            m == needle@.len(),
            0 <= i <= n - m + 1,
            forall|k: int| 0 <= k < i ==> !matches_at(hay@, needle@, k),
        decreases n - m - i + 1,
    {
        let mut j: usize = 0;
        let mut mismatch = false;
        while j < m
            invariant
                m <= n,
                n == hay@.len(),
                m == needle@.len(),
                0 <= i <= n - m,
                0 <= j <= m,
                !mismatch ==> forall|k: int| 0 <= k < j ==> hay@[i + k] == needle@[k],
                mismatch ==> !matches_at(hay@, needle@, i as int),
            decreases m - j,
        {
            if hay.get_char(i + j) != needle.get_char(j) {
                mismatch = true;
                j = m;
            } else {
                j = j + 1;
            }
        }
        if !mismatch {
            proof {
                lemma_matches_at_subrange(hay@, needle@, i as int);
            }
            return true;
        }
        i = i + 1;
    }
    proof {
        assert forall|k: int|
            0 <= k && k + needle@.len() <= hay@.len() implies #[trigger] hay@.subrange(
            k,
            k + needle@.len(),
        ) != needle@ by {
            lemma_matches_at_subrange(hay@, needle@, k);
        }
    }
    false
}

/// The components of `s` between `'.'` separators, in order; always at least
/// one component, and exactly the splitting that `str::split('.')` performs.
pub open spec fn split_dot(s: Seq<char>) -> Seq<Seq<char>>
    decreases s.len(),
{
    if s.len() == 0 {
        seq![Seq::<char>::empty()]
    } else if s.last() == '.' {
        split_dot(s.drop_last()).push(Seq::<char>::empty())
    } else {
        let parts = split_dot(s.drop_last());
        parts.update(parts.len() - 1, parts.last().push(s.last()))
    }
}

/// The components joined back together with `'.'` between them.
pub open spec fn join_dot(parts: Seq<Seq<char>>) -> Seq<char>
    decreases parts.len(),
{
    if parts.len() == 0 {
        Seq::<char>::empty()
    } else if parts.len() == 1 {
        parts[0]
    } else {
        join_dot(parts.drop_last()) + seq!['.'] + parts.last()
    }
}

/// Splitting yields at least one component.
pub proof fn lemma_split_dot_nonempty(s: Seq<char>)
    ensures
        split_dot(s).len() >= 1,
    decreases s.len(),
{
    if s.len() > 0 {
        lemma_split_dot_nonempty(s.drop_last());
    }
}

/// No component of a split holds a `'.'`.
pub proof fn lemma_split_dot_components_dotless(s: Seq<char>)
    ensures
        forall|i: int, j: int|
            0 <= i < split_dot(s).len() && 0 <= j < split_dot(s)[i].len()
                ==> #[trigger] split_dot(s)[i][j] != '.',
    decreases s.len(),
{
    if s.len() > 0 {
        lemma_split_dot_components_dotless(s.drop_last());
        lemma_split_dot_nonempty(s.drop_last());
        let pre = split_dot(s.drop_last());
        assert forall|i: int, j: int|
            0 <= i < split_dot(s).len() && 0 <= j < split_dot(s)[i].len() implies #[trigger] split_dot(
            s,
        )[i][j] != '.' by {
            if s.last() == '.' {
                if i < pre.len() {
                    assert(split_dot(s)[i] == pre[i]);
                }
            } else {
                if i < pre.len() - 1 {
                    assert(split_dot(s)[i] == pre[i]);
                } else {
                    assert(split_dot(s)[i] == pre.last().push(s.last()));
                }
            }
        }
    }
}

/// Joining the components of a split restores the original sequence.
pub proof fn lemma_join_split_dot(s: Seq<char>)
    ensures
        join_dot(split_dot(s)) == s,
    decreases s.len(),
{
    if s.len() == 0 {
        assert(join_dot(split_dot(s)) =~= s);
    } else {
        lemma_join_split_dot(s.drop_last());
        lemma_split_dot_nonempty(s.drop_last());
        let pre = split_dot(s.drop_last());
        if s.last() == '.' {
            assert(split_dot(s).drop_last() =~= pre);
            assert(join_dot(split_dot(s)) =~= s);
        } else {
            let upd = pre.update(pre.len() - 1, pre.last().push(s.last()));
            assert(split_dot(s) == upd);
            if pre.len() == 1 {
                assert(join_dot(upd) == pre[0].push(s.last()));
                assert(join_dot(upd) =~= s);
            } else {
                assert(upd.drop_last() =~= pre.drop_last());
                assert(upd.last() == pre.last().push(s.last()));
                assert(join_dot(upd) == join_dot(pre.drop_last()) + seq!['.']
                    + pre.last().push(s.last()));
                assert(join_dot(pre) == join_dot(pre.drop_last()) + seq!['.'] + pre.last());
                assert(join_dot(upd) =~= join_dot(pre).push(s.last()));
                assert(join_dot(upd) =~= s);
            }
        }
    }
}

/// A three-component join written out.
pub proof fn lemma_join_dot_three(parts: Seq<Seq<char>>)
    requires
        parts.len() == 3,
    ensures
        join_dot(parts) == parts[0] + seq!['.'] + parts[1] + seq!['.'] + parts[2],
{
    let two = parts.drop_last();
    assert(two =~= seq![parts[0], parts[1]]);
    assert(two.drop_last() =~= seq![parts[0]]);
    assert(join_dot(two.drop_last()) == parts[0]);
    assert(join_dot(two) == parts[0] + seq!['.'] + parts[1]);
    assert(join_dot(parts) == join_dot(two) + seq!['.'] + parts[2]);
}

/// Split `s` on `'.'` into its components.
pub fn split_on_dots(s: &str) -> (parts: Vec<String>)
    ensures
        parts.deep_view() == split_dot(s@),
        parts@.len() >= 1,
{
    let n = s.unicode_len();
    let mut parts: Vec<String> = Vec::new();
    let mut start: usize = 0;
    let mut i: usize = 0;
    proof {
        assert(parts.deep_view() =~~= Seq::<Seq<char>>::empty());
        assert(split_dot(s@.subrange(0, 0)) =~~= parts.deep_view().push(s@.subrange(0, 0)));
    }
    while i < n
        invariant
            n == s@.len(),
            0 <= start <= i <= n,
            split_dot(s@.subrange(0, i as int)) == parts.deep_view().push(
                s@.subrange(start as int, i as int),
            ),
        decreases n - i,
    {
        let ghost pre = s@.subrange(0, i as int);
        let ghost post = s@.subrange(0, i + 1);
        proof {
            assert(post.drop_last() =~= pre);
            assert(post.last() == s@[i as int]);
        }
        if s.get_char(i) == '.' {
            let piece = s.substring_char(start, i);
            parts.push(String::from_str(piece));
            proof {
                assert(split_dot(post) =~~= parts.deep_view().push(s@.subrange(i + 1, i + 1)));
            }
            start = i + 1;
        } else {
            proof {
                let old_parts = parts.deep_view();
                let cur = s@.subrange(start as int, i as int);
                assert(old_parts.push(cur).last() == cur);
                assert(old_parts.push(cur).update(old_parts.len() as int, cur.push(s@[i as int]))
                    =~~= old_parts.push(s@.subrange(start as int, i + 1)));
            }
        }
        i = i + 1;
    }
    let piece = s.substring_char(start, n);
    parts.push(String::from_str(piece));
    proof {
        assert(s@.subrange(0, n as int) =~= s@);
        assert(parts.deep_view() =~~= split_dot(s@));
    }
    parts
}

} // verus!
