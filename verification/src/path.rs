//! Paths as the library sees them: a sequence of names, either anchored at
//! the top of the file system or relative to wherever the host stands.
//!
//! Names are bytes and are not interpreted: the library only compares them,
//! appends them and takes them off again. The host turns a path into whatever
//! its file system wants.

use crate::order::{lemma_lex_strict_total, lex_before, strict_total};
use crate::text::{string_from_utf8, text_of, text_view};
use vstd::prelude::*;
use vstd::slice::slice_to_vec;
use vstd::string::StringExecFns;

verus! {

/// What a path is: whether it starts at the top of the file system, and the
/// names that lead from there, or from the host's own place, to the target.
pub struct PathView {
    pub absolute: bool,
    pub names: Seq<Seq<u8>>,
}

/// A location in the file system.
#[derive(Debug)]
pub struct Path {
    absolute: bool,
    names: Vec<Vec<u8>>,
}

/// The names of a path as plain sequences.
pub open spec fn names_view(names: Seq<Vec<u8>>) -> Seq<Seq<u8>> {
    names.map_values(|n: Vec<u8>| n@)
}

impl View for Path {
    type V = PathView;

    closed spec fn view(&self) -> PathView {
        PathView { absolute: self.absolute, names: names_view(self.names@) }
    }
}

/// The order of bytes by value.
pub open spec fn byte_order() -> spec_fn(u8, u8) -> bool {
    |a: u8, b: u8| a < b
}

/// One name goes before another when it does so byte by byte.
pub open spec fn name_before(a: Seq<u8>, b: Seq<u8>) -> bool {
    lex_before(a, b, byte_order())
}

/// The order of names.
pub open spec fn name_order() -> spec_fn(Seq<u8>, Seq<u8>) -> bool {
    |a: Seq<u8>, b: Seq<u8>| name_before(a, b)
}

/// One path goes before another when it is anchored and the other is not, or,
/// both being alike in that, when its names go first, name by name.
pub open spec fn path_before(a: PathView, b: PathView) -> bool {
    if a.absolute != b.absolute {
        a.absolute
    } else {
        lex_before(a.names, b.names, name_order())
    }
}

/// The order of paths.
pub open spec fn path_order() -> spec_fn(PathView, PathView) -> bool {
    |a: PathView, b: PathView| path_before(a, b)
}

/// The path one level up, if there is one: a path without names has none.
pub open spec fn parent_of(p: PathView) -> Option<PathView> {
    if p.names.len() == 0 {
        None
    } else {
        Some(PathView { absolute: p.absolute, names: p.names.drop_last() })
    }
}

/// The path one level down, by the given name.
pub open spec fn child_of(p: PathView, name: Seq<u8>) -> PathView {
    PathView { absolute: p.absolute, names: p.names.push(name) }
}

/// Whether `path` is `root` or lies somewhere below it: both are anchored
/// alike, and the names of `root` are the first names of `path`.
pub open spec fn below(path: PathView, root: PathView) -> bool {
    path.absolute == root.absolute && root.names.is_prefix_of(path.names)
}

/// The last name of a path, if it has any.
pub open spec fn last_name(p: PathView) -> Option<Seq<u8>> {
    if p.names.len() == 0 {
        None
    } else {
        Some(p.names.last())
    }
}

/// The names as one text with a slash between each two, where every name is
/// text.
pub open spec fn names_text(names: Seq<Seq<u8>>) -> Option<Seq<char>>
    decreases names.len(),
{
    if names.len() == 0 {
        Some(Seq::empty())
    } else {
        match (names_text(names.drop_last()), text_of(names.last())) {
            (Some(front), Some(name)) => Some(
                if names.len() == 1 {
                    name
                } else {
                    front + seq!['/'] + name
                },
            ),
            _ => None,
        }
    }
}

/// A path as text, where every name of it is text: the names with a slash
/// between each two, behind a slash of their own where the path is anchored.
pub open spec fn path_text(p: PathView) -> Option<Seq<char>> {
    match names_text(p.names) {
        Some(names) => Some(
            if p.absolute {
                seq!['/'] + names
            } else {
                names
            },
        ),
        None => None,
    }
}

/// Names are in a strict total order, and so are paths.
pub proof fn lemma_path_order()
    ensures
        strict_total(name_order()),
        strict_total(path_order()),
{
    assert(strict_total(byte_order()));
    lemma_lex_strict_total(byte_order());
    let names = |a: Seq<u8>, b: Seq<u8>| lex_before(a, b, byte_order());
    assert forall|a: Seq<u8>, b: Seq<u8>| names(a, b) == #[trigger] name_order()(a, b) by {}
    assert(strict_total(name_order()));
    lemma_lex_strict_total(name_order());
    let by_names = |a: Seq<Seq<u8>>, b: Seq<Seq<u8>>| lex_before(a, b, name_order());
    let paths = path_order();
    assert forall|a: PathView| !#[trigger] paths(a, a) by {
        assert(!by_names(a.names, a.names));
    }
    assert forall|a: PathView, b: PathView, c: PathView| #[trigger]
        paths(a, b) && #[trigger] paths(b, c) implies paths(a, c) by {
        if a.absolute == b.absolute && b.absolute == c.absolute {
            assert(by_names(a.names, b.names) && by_names(b.names, c.names));
            assert(by_names(a.names, c.names));
        }
    }
    assert forall|a: PathView, b: PathView| a != b implies #[trigger] paths(a, b) || paths(
        b,
        a,
    ) by {
        if a.absolute == b.absolute {
            assert(a.names != b.names);
            assert(by_names(a.names, b.names) || by_names(b.names, a.names));
        }
    }
}

/// A path lies below itself; one level down from below a root is below it
/// still; and one level up from strictly below a root is below it still.
pub proof fn lemma_below(path: PathView, root: PathView)
    requires
        below(path, root),
    ensures
        below(root, root),
        forall|child: PathView| parent_of(child) == Some(path) ==> below(child, root),
        path != root ==> parent_of(path) is Some && below(parent_of(path)->0, root),
{
    assert forall|child: PathView| parent_of(child) == Some(path) implies below(child, root) by {
        assert(child.names.drop_last() == path.names);
        assert(root.names =~= child.names.subrange(0, root.names.len() as int)) by {
            assert forall|i: int| 0 <= i < root.names.len() implies root.names[i]
                == child.names[i] by {
                assert(root.names[i] == path.names.subrange(0, root.names.len() as int)[i]);
                assert(path.names[i] == child.names.drop_last()[i]);
            }
        }
    }
    if path != root {
        if path.names.len() == root.names.len() {
            assert(path.names =~= root.names);
        }
        let up = path.names.drop_last();
        assert(root.names =~= up.subrange(0, root.names.len() as int)) by {
            assert forall|i: int| 0 <= i < root.names.len() implies root.names[i] == up[i] by {
                assert(root.names[i] == path.names.subrange(0, root.names.len() as int)[i]);
            }
        }
    }
}

/// Where the first names of a path are not all text, the names are not.
proof fn lemma_names_text_prefix(names: Seq<Seq<u8>>, upto: int)
    requires
        0 <= upto <= names.len(),
        names_text(names.take(upto)) is None,
    ensures
        names_text(names) is None,
    decreases names.len() - upto,
{
    if upto < names.len() {
        assert(names.take(upto + 1).drop_last() =~= names.take(upto));
        lemma_names_text_prefix(names, upto + 1);
    } else {
        assert(names.take(upto) =~= names);
    }
}

/// Going down by a name and up again leads back.
pub proof fn lemma_parent_of_child(p: PathView, name: Seq<u8>)
    ensures
        parent_of(child_of(p, name)) == Some(p),
        last_name(child_of(p, name)) == Some(name),
{
    assert(p.names.push(name).drop_last() =~= p.names);
}

/// Whether `a` goes before `b`, byte by byte.
pub fn name_lt(a: &[u8], b: &[u8]) -> (r: bool)
    ensures
        r == name_before(a@, b@),
{
    let mut i: usize = 0;
    assert(a@.skip(0) =~= a@ && b@.skip(0) =~= b@);
    while i < a.len() && i < b.len()
        invariant
            i <= a@.len(),
            i <= b@.len(),
            name_before(a@, b@) == lex_before(a@.skip(i as int), b@.skip(i as int), byte_order()),
        decreases a@.len() - i,
    {
        if a[i] < b[i] {
            return true;
        }
        if b[i] < a[i] {
            return false;
        }
        assert(a@.skip(i as int).drop_first() =~= a@.skip(i + 1));
        assert(b@.skip(i as int).drop_first() =~= b@.skip(i + 1));
        i += 1;
    }
    i < b.len()
}

/// A copy of the first `upto` names.
fn copy_names(names: &Vec<Vec<u8>>, upto: usize) -> (out: Vec<Vec<u8>>)
    requires
        upto <= names@.len(),
    ensures
        names_view(out@) == names_view(names@).take(upto as int),
{
    let mut out: Vec<Vec<u8>> = Vec::new();
    let mut i: usize = 0;
    while i < upto
        invariant
            i <= upto <= names@.len(),
            out@.len() == i,
            forall|j: int| 0 <= j < i ==> (#[trigger] out@[j])@ == names@[j]@,
        decreases upto - i,
    {
        out.push(slice_to_vec(names[i].as_slice()));
        i += 1;
    }
    assert(names_view(out@) =~= names_view(names@).take(upto as int));
    out
}

impl Path {
    /// The path with the given anchoring and names.
    pub fn new(absolute: bool, names: Vec<Vec<u8>>) -> (p: Path)
        ensures
            p@ == (PathView { absolute, names: names_view(names@) }),
    {
        Path { absolute, names }
    }

    /// Whether the path starts at the top of the file system.
    pub fn is_absolute(&self) -> (r: bool)
        ensures
            r == self@.absolute,
    {
        self.absolute
    }

    /// The names of the path, outermost first.
    pub fn names(&self) -> (r: &Vec<Vec<u8>>)
        ensures
            names_view(r@) == self@.names,
    {
        &self.names
    }

    /// The path one level up; none for a path without names.
    pub fn parent(&self) -> (r: Option<Path>)
        ensures
            r is Some == parent_of(self@) is Some,
            r is Some ==> r->0@ == parent_of(self@)->0,
    {
        let n: usize = self.names.len();
        if n == 0 {
            None
        } else {
            let names = copy_names(&self.names, n - 1);
            assert(self@.names.take(n - 1) =~= self@.names.drop_last());
            Some(Path { absolute: self.absolute, names })
        }
    }

    /// The path one level down, by `name`.
    pub fn join(&self, name: &[u8]) -> (r: Path)
        ensures
            r@ == child_of(self@, name@),
    {
        let mut names = copy_names(&self.names, self.names.len());
        assert(self@.names.take(self@.names.len() as int) =~= self@.names);
        names.push(slice_to_vec(name));
        assert(names_view(names@) =~= self@.names.push(name@));
        Path { absolute: self.absolute, names }
    }

    /// The last name of the path; none for a path without names.
    pub fn file_name(&self) -> (r: Option<&Vec<u8>>)
        ensures
            r is Some == last_name(self@) is Some,
            r is Some ==> r->0@ == last_name(self@)->0,
    {
        let n: usize = self.names.len();
        if n == 0 {
            None
        } else {
            Some(&self.names[n - 1])
        }
    }

    /// The path as text, where every name of it is text.
    pub fn to_text(&self) -> (text: Option<String>)
        ensures
            text_view(text) == path_text(self@),
    {
        let mut text = String::new();
        proof {
            reveal_strlit("/");
            assert("/"@ =~= seq!['/']);
        }
        if self.absolute {
            text.append("/");
        }
        let ghost lead = text@;
        let mut i: usize = 0;
        assert(self@.names.take(0) =~= Seq::empty());
        while i < self.names.len()
            invariant
                i <= self.names@.len(),
                "/"@ == seq!['/'],
                names_text(self@.names.take(i as int)) is Some,
                text@ == lead + names_text(self@.names.take(i as int))->0,
            decreases self.names@.len() - i,
        {
            proof {
                assert(self@.names.take(i + 1).drop_last() =~= self@.names.take(i as int));
                assert(self@.names.take(i + 1).last() == self.names@[i as int]@);
            }
            match string_from_utf8(slice_to_vec(self.names[i].as_slice())) {
                Ok(name) => {
                    if i > 0 {
                        text.append("/");
                    }
                    text.append(name.as_str());
                },
                Err(_) => {
                    proof {
                        lemma_names_text_prefix(self@.names, i + 1);
                    }
                    return None;
                },
            }
            i += 1;
        }
        assert(self@.names.take(i as int) =~= self@.names);
        Some(text)
    }

    /// Whether this path goes before `other` in the order of paths.
    pub fn precedes(&self, other: &Path) -> (r: bool)
        ensures
            r == path_before(self@, other@),
    {
        if self.absolute != other.absolute {
            return self.absolute;
        }
        let mut i: usize = 0;
        assert(self@.names.skip(0) =~= self@.names && other@.names.skip(0) =~= other@.names);
        while i < self.names.len() && i < other.names.len()
            invariant
                i <= self.names@.len(),
                i <= other.names@.len(),
                path_before(self@, other@) == lex_before(
                    self@.names.skip(i as int),
                    other@.names.skip(i as int),
                    name_order(),
                ),
            decreases self.names@.len() - i,
        {
            if name_lt(self.names[i].as_slice(), other.names[i].as_slice()) {
                return true;
            }
            if name_lt(other.names[i].as_slice(), self.names[i].as_slice()) {
                return false;
            }
            assert(self@.names.skip(i as int).drop_first() =~= self@.names.skip(i + 1));
            assert(other@.names.skip(i as int).drop_first() =~= other@.names.skip(i + 1));
            i += 1;
        }
        i < other.names.len()
    }
}

impl Clone for Path {
    fn clone(&self) -> (r: Path)
        ensures
            r@ == self@,
    {
        let names = copy_names(&self.names, self.names.len());
        assert(self@.names.take(self@.names.len() as int) =~= self@.names);
        Path { absolute: self.absolute, names }
    }
}

impl PartialEq for Path {
    fn eq(&self, other: &Path) -> (r: bool) {
        if self.absolute != other.absolute || self.names.len() != other.names.len() {
            assert(self@.names.len() == self.names@.len());
            assert(other@.names.len() == other.names@.len());
            return false;
        }
        let mut i: usize = 0;
        while i < self.names.len()
            invariant
                i <= self.names@.len(),
                self.names@.len() == other.names@.len(),
                self@.names.take(i as int) == other@.names.take(i as int),
            decreases self.names@.len() - i,
        {
            if !(self.names[i] == other.names[i]) {
                assert(self@.names[i as int] != other@.names[i as int]);
                return false;
            }
            assert(self.names@[i as int]@ =~= other.names@[i as int]@);
            i += 1;
            assert(self@.names.take(i as int) =~= self@.names.take(i - 1).push(
                self@.names[i - 1],
            ));
            assert(other@.names.take(i as int) =~= other@.names.take(i - 1).push(
                other@.names[i - 1],
            ));
        }
        assert(self@.names =~= self@.names.take(i as int));
        assert(other@.names =~= other@.names.take(i as int));
        true
    }
}

impl vstd::std_specs::cmp::PartialEqSpecImpl for Path {
    open spec fn obeys_eq_spec() -> bool {
        true
    }

    open spec fn eq_spec(&self, other: &Path) -> bool {
        self@ == other@
    }
}

impl Eq for Path {

}

} // verus!
