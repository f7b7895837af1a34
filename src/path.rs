//! Paths as a root flag and a sequence of normal components.
use vstd::prelude::*;

verus! {

/// A path: whether it starts at the filesystem root, and its components in
/// order. The empty relative path stands for "no path".
#[derive(Clone, Debug)]
pub struct PathName {
    pub absolute: bool,
    pub parts: Vec<String>,
}

/// The mathematical value of a [`PathName`].
pub struct PathView {
    pub absolute: bool,
    pub parts: Seq<Seq<char>>,
}

impl PathView {
    /// The empty relative path.
    pub open spec fn empty() -> PathView {
        PathView { absolute: false, parts: Seq::empty() }
    }

    pub open spec fn is_empty(self) -> bool {
        !self.absolute && self.parts.len() == 0
    }

    /// The path without its last component; none for the root and the empty path.
    pub open spec fn parent(self) -> Option<PathView> {
        if self.parts.len() == 0 {
            None
        } else {
            Some(PathView { absolute: self.absolute, parts: self.parts.drop_last() })
        }
    }

    /// The parent, or the empty path where there is none.
    pub open spec fn parent_or_empty(self) -> PathView {
        match self.parent() {
            Some(p) => p,
            None => PathView::empty(),
        }
    }

    /// The path with one more component.
    pub open spec fn join(self, name: Seq<char>) -> PathView {
        PathView { absolute: self.absolute, parts: self.parts.push(name) }
    }

    /// `self` names an immediate child of `dir`.
    pub open spec fn is_child_of(self, dir: PathView) -> bool {
        self.parent() == Some(dir)
    }
}

impl View for PathName {
    type V = PathView;

    open spec fn view(&self) -> PathView {
        PathView { absolute: self.absolute, parts: self.parts@.map_values(|s: String| s@) }
    }
}

impl PartialEq for PathName {
    fn eq(&self, other: &PathName) -> (r: bool) {
        self.same_as(other)
    }
}

impl vstd::std_specs::cmp::PartialEqSpecImpl for PathName {
    open spec fn obeys_eq_spec() -> bool {
        true
    }

    open spec fn eq_spec(&self, other: &PathName) -> bool {
        self@ == other@
    }
}

impl PathName {
    /// The empty relative path.
    pub fn new() -> (r: PathName)
        ensures
            r@ == PathView::empty(),
    {
        let r = PathName { absolute: false, parts: Vec::new() };
        assert(r@.parts =~= Seq::<Seq<char>>::empty());
        r
    }

    pub fn is_empty(&self) -> (r: bool)
        ensures
            r == self@.is_empty(),
    {
        !self.absolute && self.parts.len() == 0
    }

    /// Component-wise equality.
    pub fn same_as(&self, other: &PathName) -> (r: bool)
        ensures
            r == (self@ == other@),
    {
        if self.absolute != other.absolute || self.parts.len() != other.parts.len() {
            proof {
                if self@ == other@ {
                    assert(self@.parts.len() == other@.parts.len());
                }
            }
            return false;
        }
        let n = self.parts.len();
        let mut i: usize = 0;
        while i < n
            invariant
                n == self.parts.len(),
                n == other.parts.len(),
                i <= n,
                forall|j: int| 0 <= j < i ==> self.parts@[j]@ == other.parts@[j]@,
            decreases n - i,
        {
            if self.parts[i] != other.parts[i] {
                proof {
                    if self@ == other@ {
                        assert(self@.parts[i as int] == other@.parts[i as int]);
                    }
                }
                return false;
            }
            i = i + 1;
        }
        assert(self@.parts =~= other@.parts);
        true
    }

    /// A copy that has the same value.
    pub fn duplicate(&self) -> (r: PathName)
        ensures
            r@ == self@,
    {
        let r = self.prefix(self.parts.len());
        assert(self@.parts.subrange(0, self.parts.len() as int) =~= self@.parts);
        r
    }

    /// The first `n` components, with the same root flag.
    fn prefix(&self, n: usize) -> (r: PathName)
        requires
            n <= self.parts.len(),
        ensures
            r.absolute == self.absolute,
            r.parts@.len() == n,
            r@.parts == self@.parts.subrange(0, n as int),
    {
        let mut parts: Vec<String> = Vec::new();
        let mut i: usize = 0;
        while i < n
            invariant
                n <= self.parts.len(),
                i <= n,
                parts@.len() == i,
                forall|j: int| 0 <= j < i ==> parts@[j]@ == self.parts@[j]@,
            decreases n - i,
        {
            parts.push(self.parts[i].clone());
            i = i + 1;
        }
        let r = PathName { absolute: self.absolute, parts };
        assert(r@.parts =~= self@.parts.subrange(0, n as int));
        r
    }

    /// The path without its last component; `None` for the root and the empty path.
    pub fn parent(&self) -> (r: Option<PathName>)
        ensures
            match r {
                Some(p) => self@.parent() == Some(p@),
                None => self@.parent() is None,
            },
    {
        if self.parts.len() == 0 {
            None
        } else {
            let p = self.prefix(self.parts.len() - 1);
            assert(p@.parts =~= self@.parts.drop_last());
            Some(p)
        }
    }

    /// The parent, or the empty path where there is none.
    pub fn parent_or_empty(&self) -> (r: PathName)
        ensures
            r@ == self@.parent_or_empty(),
    {
        match self.parent() {
            Some(p) => p,
            None => PathName::new(),
        }
    }

    /// The path with `name` as one more component.
    pub fn join(&self, name: String) -> (r: PathName)
        ensures
            r@ == self@.join(name@),
    {
        let mut r = self.duplicate();
        r.parts.push(name);
        assert(r@.parts =~= self@.parts.push(name@));
        r
    }

    /// The last component, if there is one.
    pub fn file_name(&self) -> (r: Option<String>)
        ensures
            match r {
                Some(s) => self@.parts.len() > 0 && s@ == self@.parts.last(),
                None => self@.parts.len() == 0,
            },
    {
        let n = self.parts.len();
        if n == 0 {
            None
        } else {
            Some(self.parts[n - 1].clone())
        }
    }
}

/// The components of a path written one after another, with '/' between
/// each two.
pub open spec fn joined(parts: Seq<Seq<char>>) -> Seq<char>
    decreases parts.len(),
{
    if parts.len() == 0 {
        Seq::empty()
    } else if parts.len() == 1 {
        parts[0]
    } else {
        joined(parts.drop_last()) + seq!['/'] + parts.last()
    }
}

/// The text of a path: '/' first where it is absolute, then its components
/// joined by '/'.
pub open spec fn path_text(p: PathView) -> Seq<char> {
    if p.absolute {
        seq!['/'] + joined(p.parts)
    } else {
        joined(p.parts)
    }
}

/// Relies on `[String]::join`: the strings one after another, with the
/// separator "/" between each two.
#[verifier::external_body]
fn join_with_slash(parts: &Vec<String>) -> (r: String)
    ensures
        r@ == joined(parts@.map_values(|s: String| s@)),
{
    parts.join("/")
}

/// Relies on `format!`: the text "/" followed by `s`.
#[verifier::external_body]
fn slash_before(s: &String) -> (r: String)
    ensures
        r@ == seq!['/'] + s@,
{
    format!("/{}", s)
}

impl PathName {
    /// The text of the path.
    pub fn to_text(&self) -> (r: String)
        ensures
            r@ == path_text(self@),
    {
        let j = join_with_slash(&self.parts);
        if self.absolute {
            slash_before(&j)
        } else {
            j
        }
    }
}

} // verus!
