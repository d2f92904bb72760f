//! Path-addressed access to a parsed structured document: a tree of tables,
//! arrays and string scalars, read and rewritten through one recursive
//! traversal that treats a path element as a field name at a table and as a
//! base-ten index at an array.

use vstd::prelude::*;
use vstd::string::StringExecFns;
use crate::numerals::{parse_u64, spec_parse_u64};

verus! {

/// A parsed structured document: nested tables and arrays with string leaves.
#[derive(Debug)]
pub enum Node {
    Table(Vec<(String, Node)>),
    Array(Vec<Node>),
    Scalar(String),
}

/// Why a path failed to locate a value in a document.
#[derive(Debug, PartialEq, Eq, Clone, Copy, Structural)]
pub enum LookupError {
    /// A path element names no field of the table reached.
    MissingField,
    /// A path element is not a base-ten index, yet an array was reached.
    InvalidIndex,
    /// A path element indexes past the end of the array reached.
    IndexOutOfBounds,
    /// The path continues below a scalar leaf.
    PastLeaf,
    /// The path resolved, but not to a string scalar.
    NotAString,
}

/// What reading a path element as an array index yields: a numeral that fits
/// in a `usize`.
pub open spec fn spec_parse_index(s: Seq<char>) -> Option<usize> {
    match spec_parse_u64(s) {
        Some(v) => if v <= usize::MAX as u64 {
            Some(v as usize)
        } else {
            Option::<usize>::None
        },
        None => Option::<usize>::None,
    }
}

/// Read a path element as an array index.
fn parse_index(s: &str) -> (r: Option<usize>)
    ensures
        r == spec_parse_index(s@),
{
    match parse_u64(s) {
        Some(v) => if v <= usize::MAX as u64 {
            Some(v as usize)
        } else {
            None
        },
        None => None,
    }
}

/// Position of the first entry of `es` whose key reads as `key`, or `-1`.
pub open spec fn first_key_index(es: Seq<(String, Node)>, key: Seq<char>) -> int
    decreases es.len(),
{
    if es.len() == 0 {
        -1
    } else if es[0].0@ == key {
        0
    } else {
        let r = first_key_index(es.drop_first(), key);
        if r < 0 {
            -1
        } else {
            r + 1
        }
    }
}

/// `first_key_index` names the first matching entry: it stays in bounds,
/// lands on a matching key, and nothing before it matches.
pub proof fn lemma_first_key_index(es: Seq<(String, Node)>, key: Seq<char>)
    ensures
        ({
            let k = first_key_index(es, key);
            &&& -1 <= k < es.len()
            &&& k >= 0 ==> es[k].0@ == key
            &&& forall|j: int|
                0 <= j < es.len() && (k == -1 || j < k) ==> (#[trigger] es[j]).0@ != key
        }),
    decreases es.len(),
{
    if es.len() > 0 && es[0].0@ != key {
        lemma_first_key_index(es.drop_first(), key);
        let r = first_key_index(es.drop_first(), key);
        let k = first_key_index(es, key);
        assert(forall|j: int| 0 <= j < es.len() - 1 ==> #[trigger] es.drop_first()[j] == es[j + 1]);
        if r >= 0 {
            assert(es.drop_first()[r] == es[r + 1]);
        }
        assert forall|j: int|
            0 <= j < es.len() && (k == -1 || j < k) implies (#[trigger] es[j]).0@ != key by {
            if j >= 1 {
                assert(es.drop_first()[j - 1] == es[j]);
            }
        }
    }
}

/// Two entry lists with the same keys in the same order agree on
/// `first_key_index`.
pub proof fn lemma_first_key_index_same_keys(
    es1: Seq<(String, Node)>,
    es2: Seq<(String, Node)>,
    key: Seq<char>,
)
    requires
        es1.len() == es2.len(),
        forall|j: int| 0 <= j < es1.len() ==> (#[trigger] es1[j]).0@ == (#[trigger] es2[j]).0@,
    ensures
        first_key_index(es1, key) == first_key_index(es2, key),
    decreases es1.len(),
{
    if es1.len() > 0 {
        assert(forall|j: int|
            0 <= j < es1.len() - 1 ==> #[trigger] es1.drop_first()[j] == es1[j + 1]);
        assert(forall|j: int|
            0 <= j < es2.len() - 1 ==> #[trigger] es2.drop_first()[j] == es2[j + 1]);
        lemma_first_key_index_same_keys(es1.drop_first(), es2.drop_first(), key);
    }
}

/// Position of the first entry of `entries` whose key equals `key`.
fn find_key(entries: &Vec<(String, Node)>, key: &String) -> (r: Option<usize>)
    ensures
        match r {
            Some(j) => j < entries@.len() && first_key_index(entries@, key@) == j,
            None => first_key_index(entries@, key@) == -1,
        },
{
    proof {
        lemma_first_key_index(entries@, key@);
    }
    let ghost k = first_key_index(entries@, key@);
    let mut j: usize = 0;
    while j < entries.len()
        invariant
            0 <= j <= entries@.len(),
            k == first_key_index(entries@, key@),
            -1 <= k < entries@.len(),
            k >= 0 ==> entries@[k].0@ == key@,
            forall|l: int|
                0 <= l < entries@.len() && (k == -1 || l < k) ==> (#[trigger] entries@[l]).0@
                    != key@,
            forall|l: int| 0 <= l < j ==> (#[trigger] entries@[l]).0@ != key@,
        decreases entries@.len() - j,
    {
        if entries[j].0.eq(key) {
            assert(k == j);
            return Some(j);
        }
        j = j + 1;
    }
    assert(k == -1);
    None
}

/// What reading `path` (from `position` on) out of `node` yields: the string
/// scalar the path resolves to, or the first failure the traversal meets.
pub open spec fn spec_read(node: Node, path: Seq<String>, position: int) -> Result<
    Seq<char>,
    LookupError,
>
    decreases path.len() - position,
{
    if position >= path.len() {
        match node {
            Node::Scalar(s) => Ok(s@),
            _ => Err(LookupError::NotAString),
        }
    } else {
        let elem = path[position]@;
        match node {
            Node::Table(es) => {
                let k = first_key_index(es@, elem);
                if k >= 0 {
                    spec_read(es@[k].1, path, position + 1)
                } else {
                    Err(LookupError::MissingField)
                }
            },
            Node::Array(items) => match spec_parse_index(elem) {
                Some(ix) => if ix < items@.len() {
                    spec_read(items@[ix as int], path, position + 1)
                } else {
                    Err(LookupError::IndexOutOfBounds)
                },
                None => Err(LookupError::InvalidIndex),
            },
            Node::Scalar(_) => Err(LookupError::PastLeaf),
        }
    }
}

/// The failure that writing along `path` (from `position` on) meets, if any;
/// writing fails exactly where the traversal fails, and unlike reading it
/// replaces whatever node the path resolves to.
pub open spec fn spec_write_err(node: Node, path: Seq<String>, position: int) -> Option<
    LookupError,
>
    decreases path.len() - position,
{
    if position >= path.len() {
        Option::<LookupError>::None
    } else {
        let elem = path[position]@;
        match node {
            Node::Table(es) => {
                let k = first_key_index(es@, elem);
                if k >= 0 {
                    spec_write_err(es@[k].1, path, position + 1)
                } else {
                    Some(LookupError::MissingField)
                }
            },
            Node::Array(items) => match spec_parse_index(elem) {
                Some(ix) => if ix < items@.len() {
                    spec_write_err(items@[ix as int], path, position + 1)
                } else {
                    Some(LookupError::IndexOutOfBounds)
                },
                None => Some(LookupError::InvalidIndex),
            },
            Node::Scalar(_) => Some(LookupError::PastLeaf),
        }
    }
}

/// How a written document relates to the original: along `path` every entry
/// but the one stepped into is unchanged (keys included), and the node the
/// path resolves to has become the scalar `value`.
pub open spec fn written_rel(
    old_node: Node,
    new_node: Node,
    path: Seq<String>,
    position: int,
    value: Seq<char>,
) -> bool
    decreases path.len() - position,
{
    if position >= path.len() {
        new_node matches Node::Scalar(s) && s@ == value
    } else {
        let elem = path[position]@;
        match old_node {
            Node::Table(es) => {
                let k = first_key_index(es@, elem);
                &&& k >= 0
                &&& new_node matches Node::Table(nes)
                &&& nes@.len() == es@.len()
                &&& forall|j: int| 0 <= j < es@.len() && j != k ==> nes@[j] == #[trigger] es@[j]
                &&& nes@[k].0 == es@[k].0
                &&& written_rel(es@[k].1, nes@[k].1, path, position + 1, value)
            },
            Node::Array(items) => {
                match spec_parse_index(elem) {
                    Some(ix) => {
                        &&& ix < items@.len()
                        &&& new_node matches Node::Array(nitems)
                        &&& nitems@.len() == items@.len()
                        &&& forall|j: int|
                            0 <= j < items@.len() && j != ix ==> nitems@[j] == #[trigger] items@[j]
                        &&& written_rel(
                            items@[ix as int],
                            nitems@[ix as int],
                            path,
                            position + 1,
                            value,
                        )
                    },
                    None => false,
                }
            },
            Node::Scalar(_) => false,
        }
    }
}

/// Read the string scalar that `path` (from `position` on) addresses in
/// `node`.
pub fn read(node: &Node, path: &Vec<String>, position: usize) -> (r: Result<String, LookupError>)
    requires
        position <= path@.len(),
    ensures
        match r {
            Ok(s) => spec_read(*node, path@, position as int) == Ok::<Seq<char>, LookupError>(s@),
            Err(e) => spec_read(*node, path@, position as int) == Err::<Seq<char>, LookupError>(e),
        },
    decreases path@.len() - position,
{
    if position == path.len() {
        match node {
            Node::Scalar(s) => Ok(s.clone()),
            Node::Table(_) => Err(LookupError::NotAString),
            Node::Array(_) => Err(LookupError::NotAString),
        }
    } else {
        let elem = &path[position];
        match node {
            Node::Table(entries) => {
                match find_key(entries, elem) {
                    Some(j) => read(&entries[j].1, path, position + 1),
                    None => Err(LookupError::MissingField),
                }
            },
            Node::Array(items) => {
                match parse_index(elem.as_str()) {
                    Some(ix) => {
                        if ix < items.len() {
                            read(&items[ix], path, position + 1)
                        } else {
                            Err(LookupError::IndexOutOfBounds)
                        }
                    },
                    None => Err(LookupError::InvalidIndex),
                }
            },
            Node::Scalar(_) => Err(LookupError::PastLeaf),
        }
    }
}

/// Rewrite the node that `path` (from `position` on) addresses in `node` to
/// the scalar `value`, leaving every other node as it was; on failure, report
/// where the traversal stopped.
pub fn write(node: Node, path: &Vec<String>, position: usize, value: &str) -> (r: Result<
    Node,
    LookupError,
>)
    requires
        position <= path@.len(),
    ensures
        match r {
            Ok(nn) => spec_write_err(node, path@, position as int) is None && written_rel(
                node,
                nn,
                path@,
                position as int,
                value@,
            ),
            Err(e) => spec_write_err(node, path@, position as int) == Some(e),
        },
    decreases path@.len() - position,
{
    if position == path.len() {
        return Ok(Node::Scalar(String::from_str(value)));
    }
    let elem = &path[position];
    match node {
        Node::Table(mut entries) => {
            let ghost before = entries@;
            match find_key(&entries, elem) {
                Some(j) => {
                    let entry = entries.remove(j);
                    let (key, child) = entry;
                    match write(child, path, position + 1, value) {
                        Ok(new_child) => {
                            entries.insert(j, (key, new_child));
                            proof {
                                assert(entries@ =~= before.update(
                                    j as int,
                                    (before[j as int].0, new_child),
                                ));
                            }
                            Ok(Node::Table(entries))
                        },
                        Err(e) => Err(e),
                    }
                },
                None => Err(LookupError::MissingField),
            }
        },
        Node::Array(mut items) => {
            match parse_index(elem.as_str()) {
                Some(ix) => {
                    if ix < items.len() {
                        let ghost before = items@;
                        let child = items.remove(ix);
                        match write(child, path, position + 1, value) {
                            Ok(new_child) => {
                                items.insert(ix, new_child);
                                proof {
                                    assert(items@ =~= before.update(ix as int, new_child));
                                }
                                Ok(Node::Array(items))
                            },
                            Err(e) => Err(e),
                        }
                    } else {
                        Err(LookupError::IndexOutOfBounds)
                    }
                },
                None => Err(LookupError::InvalidIndex),
            }
        },
        Node::Scalar(_) => Err(LookupError::PastLeaf),
    }
}

/// One resolved traversal step: the field name taken at a table, or the
/// index taken at an array.
#[derive(Debug, PartialEq, Eq, Clone)]
pub enum PathStep {
    Field(String),
    Index(usize),
}

/// The steps a write along `path` (from `position` on) takes through `node`:
/// at a table the path element as a field name, at an array the index it
/// parses to; or the failure the traversal meets.
pub open spec fn spec_resolve(node: Node, path: Seq<String>, position: int) -> Result<
    Seq<PathStep>,
    LookupError,
>
    decreases path.len() - position,
{
    if position >= path.len() {
        Ok(Seq::<PathStep>::empty())
    } else {
        let elem = path[position]@;
        match node {
            Node::Table(es) => {
                let k = first_key_index(es@, elem);
                if k >= 0 {
                    match spec_resolve(es@[k].1, path, position + 1) {
                        Ok(rest) => Ok(seq![PathStep::Field(path[position])] + rest),
                        Err(e) => Err(e),
                    }
                } else {
                    Err(LookupError::MissingField)
                }
            },
            Node::Array(items) => match spec_parse_index(elem) {
                Some(ix) => if ix < items@.len() {
                    match spec_resolve(items@[ix as int], path, position + 1) {
                        Ok(rest) => Ok(seq![PathStep::Index(ix)] + rest),
                        Err(e) => Err(e),
                    }
                } else {
                    Err(LookupError::IndexOutOfBounds)
                },
                None => Err(LookupError::InvalidIndex),
            },
            Node::Scalar(_) => Err(LookupError::PastLeaf),
        }
    }
}

/// Resolve `path` (from `position` on) in `node` to the concrete steps a
/// write takes, so a caller can replay the same edit on another copy of the
/// document; fails exactly where a write would.
pub fn resolve_steps(node: &Node, path: &Vec<String>, position: usize) -> (r: Result<
    Vec<PathStep>,
    LookupError,
>)
    requires
        position <= path@.len(),
    ensures
        match r {
            Ok(steps) => spec_resolve(*node, path@, position as int) == Ok::<
                Seq<PathStep>,
                LookupError,
            >(steps@),
            Err(e) => spec_resolve(*node, path@, position as int) == Err::<
                Seq<PathStep>,
                LookupError,
            >(e),
        },
    decreases path@.len() - position,
{
    if position == path.len() {
        return Ok(Vec::new());
    }
    let elem = &path[position];
    match node {
        Node::Table(entries) => {
            match find_key(entries, elem) {
                Some(j) => {
                    match resolve_steps(&entries[j].1, path, position + 1) {
                        Ok(mut rest) => {
                            let ghost tail = rest@;
                            rest.insert(0, PathStep::Field(elem.clone()));
                            proof {
                                assert(rest@ =~= seq![PathStep::Field(path@[position as int])]
                                    + tail);
                            }
                            Ok(rest)
                        },
                        Err(e) => Err(e),
                    }
                },
                None => Err(LookupError::MissingField),
            }
        },
        Node::Array(items) => {
            match parse_index(elem.as_str()) {
                Some(ix) => {
                    if ix < items.len() {
                        match resolve_steps(&items[ix], path, position + 1) {
                            Ok(mut rest) => {
                                let ghost tail = rest@;
                                rest.insert(0, PathStep::Index(ix));
                                proof {
                                    assert(rest@ =~= seq![PathStep::Index(ix)] + tail);
                                }
                                Ok(rest)
                            },
                            Err(e) => Err(e),
                        }
                    } else {
                        Err(LookupError::IndexOutOfBounds)
                    }
                },
                None => Err(LookupError::InvalidIndex),
            }
        },
        Node::Scalar(_) => Err(LookupError::PastLeaf),
    }
}

/// Probe whether `path` (from `position` on) resolves in `node` without
/// changing anything: reports exactly the failure a write would meet.
pub fn locate(node: &Node, path: &Vec<String>, position: usize) -> (r: Option<LookupError>)
    requires
        position <= path@.len(),
    ensures
        r == spec_write_err(*node, path@, position as int),
    decreases path@.len() - position,
{
    if position == path.len() {
        return None;
    }
    let elem = &path[position];
    match node {
        Node::Table(entries) => {
            match find_key(entries, elem) {
                Some(j) => locate(&entries[j].1, path, position + 1),
                None => Some(LookupError::MissingField),
            }
        },
        Node::Array(items) => {
            match parse_index(elem.as_str()) {
                Some(ix) => {
                    if ix < items.len() {
                        locate(&items[ix], path, position + 1)
                    } else {
                        Some(LookupError::IndexOutOfBounds)
                    }
                },
                None => Some(LookupError::InvalidIndex),
            }
        },
        Node::Scalar(_) => Some(LookupError::PastLeaf),
    }
}

/// Reading back the path that a write rewrote yields the written value.
pub proof fn lemma_read_after_write(
    old_node: Node,
    new_node: Node,
    path: Seq<String>,
    position: int,
    value: Seq<char>,
)
    requires
        0 <= position <= path.len(),
        written_rel(old_node, new_node, path, position, value),
    ensures
        spec_read(new_node, path, position) == Ok::<Seq<char>, LookupError>(value),
    decreases path.len() - position,
{
    if position == path.len() {
    } else {
        let elem = path[position]@;
        match old_node {
            Node::Table(es) => {
                let k = first_key_index(es@, elem);
                let nes = new_node->Table_0;
                assert(forall|j: int|
                    0 <= j < es@.len() ==> (#[trigger] es@[j]).0@ == (#[trigger] nes@[j]).0@);
                lemma_first_key_index_same_keys(es@, nes@, elem);
                lemma_read_after_write(es@[k].1, nes@[k].1, path, position + 1, value);
            },
            Node::Array(items) => {
                let ix = spec_parse_index(elem)->Some_0;
                let nitems = new_node->Array_0;
                lemma_read_after_write(
                    items@[ix as int],
                    nitems@[ix as int],
                    path,
                    position + 1,
                    value,
                );
            },
            Node::Scalar(_) => {},
        }
    }
}

} // verus!
