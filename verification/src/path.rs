//! Paths, held as a root and the names below it.

use vstd::prelude::*;
use vstd::utf8::*;

verus! {

/// A path, taken apart: what it starts from, and the names that follow.
///
/// `root` is the text that the path starts with: `/`, a drive or a share, or
/// nothing at all for a relative path. `names` are the components below it,
/// outermost first. Both hold the bytes of the platform's own encoding, so a
/// name need not be UTF-8. `separator` is the byte that the platform writes
/// between two names.
#[derive(Debug, PartialEq, Eq)]
pub struct PathParts {
    pub root: Vec<u8>,
    pub names: Vec<Vec<u8>>,
    pub separator: u8,
}

/// What a [`PathParts`] stands for.
#[verifier::ext_equal]
pub struct PathView {
    pub root: Seq<u8>,
    pub names: Seq<Seq<u8>>,
    pub separator: u8,
}

impl PathView {
    /// The path of the entry called `name` in this directory.
    pub open spec fn join(self, name: Seq<u8>) -> PathView {
        PathView { names: self.names.push(name), ..self }
    }

    /// The directory that is `depth` levels above this one.
    pub open spec fn ancestor(self, depth: int) -> PathView {
        PathView { names: self.names.take(self.names.len() - depth), ..self }
    }

    /// This directory and those above it, nearest first, `limit` of them at
    /// most.
    pub open spec fn chain(self, limit: nat) -> Seq<PathView> {
        let all = self.names.len() + 1;
        Seq::new(if limit < all { limit } else { all }, |depth: int| self.ancestor(depth))
    }

    /// Above the first directory of a chain stands the chain of its parent.
    pub proof fn chain_above(self, limit: nat)
        requires
            limit > 0,
        ensures
            self.chain(limit).len() > 0,
            self.chain(limit)[0] == self,
            self.chain(limit).drop_first() == if self.names.len() > 0 {
                self.ancestor(1).chain((limit - 1) as nat)
            } else {
                Seq::empty()
            },
    {
        assert(self.ancestor(0) =~= self);
        let above = self.chain(limit).drop_first();
        if self.names.len() > 0 {
            let expected = self.ancestor(1).chain((limit - 1) as nat);
            assert(above.len() == expected.len());
            assert forall|depth: int| 0 <= depth < above.len() implies above[depth]
                == expected[depth] by {
                assert(self.ancestor(depth + 1) =~= self.ancestor(1).ancestor(depth));
            }
            assert(above =~= expected);
        } else {
            assert(above =~= Seq::empty());
        }
    }

    /// The chain of a directory further up is what is left of the chain of one
    /// below it, as far as the latter goes.
    pub proof fn chain_from(self, limit: nat, levels: int, depth: int)
        requires
            0 <= levels,
            0 <= depth,
            levels + depth < self.chain(limit).len(),
        ensures
            depth < self.ancestor(levels).chain(limit).len(),
            self.ancestor(levels).chain(limit)[depth] == self.chain(limit)[levels + depth],
    {
        assert(self.ancestor(levels).ancestor(depth) =~= self.ancestor(levels + depth));
    }

    /// Whether this path lies in `directory`, at any depth.
    pub open spec fn below(self, directory: PathView) -> bool {
        &&& self.root == directory.root && self.separator == directory.separator
        &&& self.names.len() > directory.names.len()
        &&& self.names.take(directory.names.len() as int) == directory.names
    }

    /// An entry of a directory in a chain lies in every directory further up
    /// that chain.
    pub proof fn entry_below(self, limit: nat, near: int, far: int, name: Seq<u8>)
        requires
            0 <= near <= far < self.chain(limit).len(),
        ensures
            self.chain(limit)[near].join(name).below(self.chain(limit)[far]),
    {
        let path = self.chain(limit)[near].join(name);
        let directory = self.chain(limit)[far];
        assert(path.names.take(directory.names.len() as int) =~= directory.names);
    }

    /// The directory that holds this path; the path itself where nothing does.
    pub open spec fn holder(self) -> PathView {
        if self.names.len() == 0 {
            self
        } else {
            self.ancestor(1)
        }
    }

    /// The path as one text.
    pub open spec fn text(self) -> Seq<u8> {
        self.root + joined(self.names, self.separator)
    }

    /// The path as a reader sees it: its text where that is UTF-8, with what is
    /// not UTF-8 replaced otherwise.
    pub open spec fn shown(self) -> Seq<char> {
        if valid_utf8(self.text()) {
            decode_utf8(self.text())
        } else {
            lossy_text(self.text())
        }
    }
}

/// `names` in their order, with one `separator` between any two.
pub open spec fn joined(names: Seq<Seq<u8>>, separator: u8) -> Seq<u8>
    decreases names.len(),
{
    if names.len() == 0 {
        Seq::empty()
    } else if names.len() == 1 {
        names[0]
    } else {
        joined(names.drop_last(), separator).push(separator) + names.last()
    }
}

impl View for PathParts {
    type V = PathView;

    open spec fn view(&self) -> PathView {
        PathView {
            root: self.root@,
            names: Seq::new(self.names@.len(), |i: int| self.names@[i]@),
            separator: self.separator,
        }
    }
}

/// The text that `bytes` show as: what is UTF-8 as it is, the rest replaced.
pub uninterp spec fn lossy_text(bytes: Seq<u8>) -> Seq<char>;

/// Calls `String::from_utf8_lossy`. Bytes that are UTF-8 come back as the text
/// that they encode; what other bytes come back as is a function of the bytes.
#[verifier::external_body]
fn from_utf8_lossy(bytes: &[u8]) -> (text: String)
    ensures
        text@ == lossy_text(bytes@),
        valid_utf8(bytes@) ==> text@ == decode_utf8(bytes@),
{
    String::from_utf8_lossy(bytes).into_owned()
}

/// A copy of `bytes`.
fn copy_bytes(bytes: &Vec<u8>) -> (copy: Vec<u8>)
    ensures
        copy@ == bytes@,
{
    let copy = bytes.clone();
    assert(copy@ =~= bytes@);
    copy
}

/// Whether `left` and `right` are the same bytes.
fn same_bytes(left: &Vec<u8>, right: &Vec<u8>) -> (same: bool)
    ensures
        same == (left@ == right@),
{
    if left.len() != right.len() {
        return false;
    }
    let mut i: usize = 0;
    while i < left.len()
        invariant
            i <= left.len(),
            left.len() == right.len(),
            forall|j: int| 0 <= j < i ==> left@[j] == right@[j],
        decreases left.len() - i,
    {
        if left[i] != right[i] {
            return false;
        }
        i += 1;
    }
    assert(left@ =~= right@);
    true
}

impl Clone for PathParts {
    fn clone(&self) -> (copy: PathParts)
        ensures
            copy@ == self@,
    {
        let mut names: Vec<Vec<u8>> = Vec::new();
        let mut i: usize = 0;
        while i < self.names.len()
            invariant
                i <= self.names.len(),
                names.len() == i,
                forall|j: int| 0 <= j < i ==> names@[j]@ == self.names@[j]@,
            decreases self.names.len() - i,
        {
            names.push(copy_bytes(&self.names[i]));
            i += 1;
        }
        let copy = PathParts { root: copy_bytes(&self.root), names, separator: self.separator };
        assert(copy@ =~= self@) by {
            assert(copy@.names =~= self@.names);
        }
        copy
    }
}

impl PathParts {
    /// Whether two paths are the same: the same root, names and separator.
    pub fn same(&self, other: &PathParts) -> (same: bool)
        ensures
            same == (self@ == other@),
    {
        if self.separator != other.separator || !same_bytes(&self.root, &other.root) {
            return false;
        }
        if self.names.len() != other.names.len() {
            assert(self@.names.len() != other@.names.len());
            return false;
        }
        let mut i: usize = 0;
        while i < self.names.len()
            invariant
                i <= self.names.len(),
                self.names.len() == other.names.len(),
                forall|j: int| 0 <= j < i ==> self.names@[j]@ == other.names@[j]@,
            decreases self.names.len() - i,
        {
            if !same_bytes(&self.names[i], &other.names[i]) {
                assert(self@.names[i as int] != other@.names[i as int]);
                return false;
            }
            i += 1;
        }
        assert(self@.names =~= other@.names);
        true
    }

    /// The path of the entry called `name` in this directory.
    pub fn join(&self, name: &str) -> (path: PathParts)
        ensures
            path@ == self@.join(encode_utf8(name@)),
    {
        let mut path = self.clone();
        let ghost names = path@.names;
        path.names.push(vstd::slice::slice_to_vec(name.as_bytes()));
        assert(path@.names =~= names.push(encode_utf8(name@)));
        path
    }

    /// The directory one level up, or `None` where the path is its root alone.
    pub fn parent(&self) -> (parent: Option<PathParts>)
        ensures
            parent is Some <==> self@.names.len() > 0,
            parent matches Some(directory) ==> directory@ == self@.ancestor(1),
    {
        if self.names.len() == 0 {
            return None;
        }
        let mut path = self.clone();
        let ghost names = path@.names;
        let _ = path.names.pop();
        assert(path@.names =~= names.take(names.len() - 1));
        Some(path)
    }

    /// The path as text for a reader; bytes that are not UTF-8 are replaced.
    pub fn display(&self) -> (text: String)
        ensures
            text@ == self@.shown(),
    {
        let separator: u8 = self.separator;
        let mut text: Vec<u8> = copy_bytes(&self.root);
        let mut i: usize = 0;
        proof {
            assert(self@.names.take(0) =~= Seq::<Seq<u8>>::empty());
            assert(text@ =~= self@.root + joined(self@.names.take(0), separator));
        }
        while i < self.names.len()
            invariant
                i <= self.names.len(),
                self@.names.len() == self.names.len(),
                separator == self.separator,
                text@ == self@.root + joined(self@.names.take(i as int), separator),
            decreases self.names.len() - i,
        {
            let ghost before = self@.names.take(i as int);
            let ghost after = self@.names.take(i + 1);
            if i > 0 {
                text.push(separator);
            }
            let mut name = copy_bytes(&self.names[i]);
            text.append(&mut name);
            proof {
                assert(after.drop_last() =~= before);
                assert(after.last() == self.names@[i as int]@);
                assert(text@ =~= self@.root + joined(after, separator));
            }
            i += 1;
        }
        assert(self@.names.take(i as int) =~= self@.names);
        from_utf8_lossy(text.as_slice())
    }
}

} // verus!
