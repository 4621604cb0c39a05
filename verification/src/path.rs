//! Paths as lists of components.

use vstd::prelude::*;
use vstd::string::*;
use crate::model::Model;

verus! {

/// What a component of a path is.
#[derive(Debug, PartialEq, Eq, Clone, Copy, Structural)]
pub enum PartKind {
    /// A drive or share, as Windows paths start with.
    Prefix,
    /// The root directory.
    RootDir,
    /// The directory itself, `.`.
    CurDir,
    /// The directory above, `..`.
    ParentDir,
    /// A name.
    Normal,
}

/// One component of a path.
#[derive(Debug, PartialEq, Eq)]
pub struct FsPart {
    /// The component as it is written.
    pub text: String,
    pub kind: PartKind,
}

/// What an [`FsPart`] stands for.
pub struct PartModel {
    pub text: Seq<char>,
    pub kind: PartKind,
}

impl Model for FsPart {
    type M = PartModel;

    open spec fn model(&self) -> PartModel {
        PartModel { text: self.text@, kind: self.kind }
    }
}

impl Clone for FsPart {
    fn clone(&self) -> (r: Self)
        ensures
            r.model() == self.model(),
    {
        FsPart { text: self.text.clone(), kind: self.kind }
    }
}

/// Whether a component is a root or a prefix: a path that ends in one has
/// no parent.
pub open spec fn anchored(part: PartModel) -> bool {
    part.kind == PartKind::Prefix || part.kind == PartKind::RootDir
}

impl FsPart {
    /// Whether the component is a root or a prefix.
    pub fn is_anchor(&self) -> (r: bool)
        ensures
            r == anchored(self.model()),
    {
        match self.kind {
            PartKind::Prefix => true,
            PartKind::RootDir => true,
            _ => false,
        }
    }
}

/// A path: its components, outermost first.
#[derive(Debug, PartialEq, Eq)]
pub struct FsPath {
    pub parts: Vec<FsPart>,
}

impl Model for FsPath {
    type M = Seq<PartModel>;

    open spec fn model(&self) -> Seq<PartModel> {
        self.parts.model()
    }
}

/// The path that holds `p`, if `p` has one: `p` without its last
/// component, unless that is a root or a prefix or `p` is empty.
pub open spec fn parent_of(p: Seq<PartModel>) -> Option<Seq<PartModel>> {
    if p.len() > 0 && !anchored(p.last()) {
        Some(p.drop_last())
    } else {
        None
    }
}

/// The path of the entry called `name` in the directory `p`.
pub open spec fn child_of(p: Seq<PartModel>, name: Seq<char>) -> Seq<PartModel> {
    p.push(PartModel { text: name, kind: PartKind::Normal })
}

/// Whether `a` is `d` itself or a directory that `d` lies in.
pub open spec fn holds(a: Seq<PartModel>, d: Seq<PartModel>) -> bool {
    a.is_prefix_of(d)
}

/// The components of the path that a text spells, on the platform that the
/// library is built for.
pub uninterp spec fn components_of(text: Seq<char>) -> Seq<PartModel>;

/// `std::path::Path::components`: the components of the path that `text`
/// spells, each with its spelling and with what it is. The claim is only
/// that the text decides them.
#[verifier::external_body]
fn split(text: &str) -> (parts: Vec<FsPart>)
    ensures
        parts.model() == components_of(text@),
{
    let mut parts = Vec::new();
    for c in std::path::Path::new(text).components() {
        let kind = match c {
            std::path::Component::Prefix(_) => PartKind::Prefix,
            std::path::Component::RootDir => PartKind::RootDir,
            std::path::Component::CurDir => PartKind::CurDir,
            std::path::Component::ParentDir => PartKind::ParentDir,
            std::path::Component::Normal(_) => PartKind::Normal,
        };
        parts.push(FsPart { text: c.as_os_str().to_string_lossy().into_owned(), kind });
    }
    parts
}

impl Clone for FsPath {
    fn clone(&self) -> (r: Self)
        ensures
            r.model() == self.model(),
    {
        let mut parts: Vec<FsPart> = Vec::new();
        let n = self.parts.len();
        let mut i: usize = 0;
        while i < n
            invariant
                i <= n,
                n == self.parts.len(),
                parts.len() == i,
                forall|k: int| 0 <= k < i ==> parts@[k].model() == self.parts@[k].model(),
            decreases n - i,
        {
            parts.push(self.parts[i].clone());
            i = i + 1;
        }
        assert(parts.model() =~= self.parts.model());
        FsPath { parts }
    }
}

impl FsPath {
    /// The path that a text spells.
    pub fn parse(text: &str) -> (r: FsPath)
        ensures
            r.model() == components_of(text@),
    {
        FsPath { parts: split(text) }
    }

    /// The path of the entry called `name` in this directory.
    pub fn join(&self, name: &str) -> (r: FsPath)
        ensures
            r.model() == child_of(self.model(), name@),
    {
        let mut r = self.clone();
        let ghost before = r.parts.model();
        r.parts.push(FsPart { text: String::from_str(name), kind: PartKind::Normal });
        assert(r.parts.model() =~= before.push(PartModel { text: name@, kind: PartKind::Normal }));
        r
    }

    /// Moves to the parent, if there is one, and says whether it did.
    pub fn pop(&mut self) -> (moved: bool)
        ensures
            moved == parent_of(old(self).model()).is_some(),
            final(self).model() == match parent_of(old(self).model()) {
                Some(p) => p,
                None => old(self).model(),
            },
    {
        let n = self.parts.len();
        if n > 0 && !self.parts[n - 1].is_anchor() {
            let ghost before = self.parts.model();
            self.parts.pop();
            assert(self.parts.model() =~= before.drop_last());
            true
        } else {
            false
        }
    }

    /// Whether two paths have the same components.
    pub fn equals(&self, other: &FsPath) -> (same: bool)
        ensures
            same == (self.model() == other.model()),
    {
        let n = self.parts.len();
        if other.parts.len() != n {
            assert(self.model().len() != other.model().len());
            return false;
        }
        let mut i: usize = 0;
        while i < n
            invariant
                i <= n,
                n == self.parts.len(),
                n == other.parts.len(),
                forall|k: int| 0 <= k < i ==> self.parts@[k].model() == other.parts@[k].model(),
            decreases n - i,
        {
            let a = &self.parts[i];
            let b = &other.parts[i];
            if a.kind != b.kind || a.text != b.text {
                assert(self.model()[i as int] != other.model()[i as int]);
                return false;
            }
            i = i + 1;
        }
        assert(self.model() =~= other.model());
        true
    }
}

} // verus!
