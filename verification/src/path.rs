//! Module paths: where a path starts and which names follow.

use vstd::prelude::*;

use crate::text::{same_text, texts};

verus! {

/// Where a module path starts.
#[derive(Debug)]
pub enum WeslOrigin {
    /// At the root of the current package, written `package::`.
    Absolute,
    /// At the current module, or that many modules above it, written `self::` or `super::`.
    Relative(usize),
    /// At the root of another package, written with its name.
    Package(String),
}

/// The path of a module.
#[derive(Debug)]
pub struct WeslPath {
    /// Where the path starts.
    pub origin: WeslOrigin,
    /// The names that lead from there to the module.
    pub components: Vec<String>,
}

/// What a [`WeslOrigin`] says.
pub enum OriginView {
    Absolute,
    Relative(nat),
    Package(Seq<char>),
}

/// What a [`WeslPath`] says.
#[verifier::ext_equal]
pub struct PathView {
    pub origin: OriginView,
    pub components: Seq<Seq<char>>,
}

impl View for WeslOrigin {
    type V = OriginView;

    open spec fn view(&self) -> OriginView {
        match self {
            WeslOrigin::Absolute => OriginView::Absolute,
            WeslOrigin::Relative(n) => OriginView::Relative(*n as nat),
            WeslOrigin::Package(name) => OriginView::Package(name@),
        }
    }
}

impl View for WeslPath {
    type V = PathView;

    open spec fn view(&self) -> PathView {
        PathView { origin: self.origin@, components: texts(self.components@) }
    }
}

/// What each path of a list says.
pub open spec fn path_views(list: Seq<WeslPath>) -> Seq<PathView> {
    list.map_values(|p: WeslPath| p@)
}

impl PathView {
    /// The path of what is called `name` in this module.
    pub open spec fn child(self, name: Seq<char>) -> PathView {
        PathView { origin: self.origin, components: self.components.push(name) }
    }

    /// The path that continues this one by `names`.
    pub open spec fn extended(self, names: Seq<Seq<char>>) -> PathView {
        PathView { origin: self.origin, components: self.components + names }
    }

    /// How many of that many `super` steps lead above the start of this path.
    pub open spec fn steps_above(self, steps: nat) -> nat {
        if steps > self.components.len() {
            (steps - self.components.len()) as nat
        } else {
            0
        }
    }

    /// The path that `suffix` means when it is written in the module of this path.
    pub open spec fn resolved(self, suffix: PathView) -> PathView {
        match suffix.origin {
            OriginView::Absolute => match self.origin {
                OriginView::Package(_) => PathView {
                    origin: self.origin,
                    components: suffix.components,
                },
                _ => suffix,
            },
            OriginView::Relative(steps) => {
                let kept = if steps <= self.components.len() {
                    self.components.len() - steps
                } else {
                    0
                };
                PathView {
                    origin: match self.origin {
                        OriginView::Relative(above) => OriginView::Relative(
                            above + self.steps_above(steps),
                        ),
                        _ => self.origin,
                    },
                    components: self.components.take(kept) + suffix.components,
                }
            },
            OriginView::Package(name) => match self.origin {
                OriginView::Package(own) => PathView {
                    origin: OriginView::Package(own + seq!['/'] + name),
                    components: suffix.components,
                },
                _ => suffix,
            },
        }
    }

    /// Whether the number of steps in `self.resolved(suffix)` can be held by a machine word.
    pub open spec fn resolvable(self, suffix: PathView) -> bool {
        match (self.origin, suffix.origin) {
            (OriginView::Relative(above), OriginView::Relative(steps)) => above + self.steps_above(
                steps,
            ) <= usize::MAX,
            _ => true,
        }
    }

    /// The name that a path leads with, where it leads with one: `package`, `super` and `self`
    /// are no names.
    pub open spec fn head(self) -> Option<Seq<char>> {
        match self.origin {
            OriginView::Package(name) => Some(name),
            _ => None,
        }
    }
}

/// The module path of the `wesl` crate.
#[verifier::external_type_specification]
#[verifier::external_body]
pub struct ExModulePath(wesl::syntax::ModulePath);

/// What a module path of the `wesl` crate says: its `origin` and its `components`.
pub uninterp spec fn wesl_path(path: wesl::syntax::ModulePath) -> PathView;

/// `ModulePath::join_path` of the `wesl` crate: the path that `suffix` means inside the module of
/// `path`. A path from inside a package to another one gets both names, with a slash between.
/// The sum of two counts of `super` steps has to fit a machine word.
pub assume_specification[ wesl::syntax::ModulePath::join_path ](
    path: &wesl::syntax::ModulePath,
    suffix: &wesl::syntax::ModulePath,
) -> (r: wesl::syntax::ModulePath)
    requires
        wesl_path(*path).resolvable(wesl_path(*suffix)),
    ensures
        wesl_path(r) == wesl_path(*path).resolved(wesl_path(*suffix)),
;

/// `ModulePath::new` of the `wesl` crate stores the origin and the components that it is given.
#[verifier::external_body]
pub(crate) fn to_wesl(path: &WeslPath) -> (r: wesl::syntax::ModulePath)
    ensures
        wesl_path(r) == path@,
{
    let origin = match &path.origin {
        WeslOrigin::Absolute => wesl::syntax::PathOrigin::Absolute,
        WeslOrigin::Relative(steps) => wesl::syntax::PathOrigin::Relative(*steps),
        WeslOrigin::Package(name) => wesl::syntax::PathOrigin::Package(name.clone()),
    };
    wesl::syntax::ModulePath::new(origin, path.components.clone())
}

/// Reads the two fields of a `ModulePath` of the `wesl` crate.
#[verifier::external_body]
pub(crate) fn of_wesl(path: &wesl::syntax::ModulePath) -> (r: WeslPath)
    ensures
        r@ == wesl_path(*path),
{
    let origin = match &path.origin {
        wesl::syntax::PathOrigin::Absolute => WeslOrigin::Absolute,
        wesl::syntax::PathOrigin::Relative(steps) => WeslOrigin::Relative(*steps),
        wesl::syntax::PathOrigin::Package(name) => WeslOrigin::Package(name.clone()),
    };
    WeslPath { origin, components: path.components.clone() }
}

/// A copy of a list of strings.
pub fn copy_texts(list: &Vec<String>) -> (r: Vec<String>)
    ensures
        texts(r@) == texts(list@),
{
    let mut r: Vec<String> = Vec::new();
    extend_texts(&mut r, list, 0);
    assert(texts(list@).skip(0) == texts(list@));
    r
}

/// Appends copies of the strings of `more` from `from` on.
fn extend_texts(list: &mut Vec<String>, more: &Vec<String>, from: usize)
    requires
        from <= more.len(),
    ensures
        texts(final(list)@) == texts(old(list)@) + texts(more@).skip(from as int),
{
    let ghost start = texts(list@);
    let mut i: usize = from;
    while i < more.len()
        invariant
            from <= i <= more.len(),
            texts(list@) == start + texts(more@).subrange(from as int, i as int),
        decreases more.len() - i,
    {
        let ghost before = texts(list@);
        list.push(more[i].clone());
        assert(texts(list@) == before.push(more@[i as int]@));
        i += 1;
    }
}

/// Whether two lists hold the same strings in the same order.
fn same_texts(a: &Vec<String>, b: &Vec<String>) -> (r: bool)
    ensures
        r == (texts(a@) == texts(b@)),
{
    if a.len() != b.len() {
        assert(texts(a@).len() != texts(b@).len());
        return false;
    }
    let mut i: usize = 0;
    while i < a.len()
        invariant
            i <= a.len() == b.len(),
            texts(a@).take(i as int) == texts(b@).take(i as int),
        decreases a.len() - i,
    {
        if !same_text(a[i].as_str(), b[i].as_str()) {
            assert(texts(a@)[i as int] != texts(b@)[i as int]);
            return false;
        }
        assert(texts(a@).take(i + 1) == texts(a@).take(i as int).push(texts(a@)[i as int]));
        assert(texts(b@).take(i + 1) == texts(b@).take(i as int).push(texts(b@)[i as int]));
        i += 1;
    }
    assert(texts(a@).take(i as int) == texts(a@));
    assert(texts(b@).take(i as int) == texts(b@));
    true
}

impl Clone for WeslOrigin {
    fn clone(&self) -> (r: Self)
        ensures
            r@ == self@,
    {
        match self {
            WeslOrigin::Absolute => WeslOrigin::Absolute,
            WeslOrigin::Relative(steps) => WeslOrigin::Relative(*steps),
            WeslOrigin::Package(name) => WeslOrigin::Package(name.clone()),
        }
    }
}

impl Clone for WeslPath {
    fn clone(&self) -> (r: Self)
        ensures
            r@ == self@,
    {
        WeslPath { origin: self.origin.clone(), components: copy_texts(&self.components) }
    }
}

impl WeslPath {
    /// Whether two paths say the same.
    pub fn same(&self, other: &WeslPath) -> (r: bool)
        ensures
            r == (self@ == other@),
    {
        let origins = match (&self.origin, &other.origin) {
            (WeslOrigin::Absolute, WeslOrigin::Absolute) => true,
            (WeslOrigin::Relative(a), WeslOrigin::Relative(b)) => *a == *b,
            (WeslOrigin::Package(a), WeslOrigin::Package(b)) => same_text(a.as_str(), b.as_str()),
            _ => false,
        };
        origins && same_texts(&self.components, &other.components)
    }

    /// Continues the path by one name.
    pub fn push(&mut self, name: &str)
        ensures
            final(self)@ == old(self)@.child(name@),
    {
        let ghost before = texts(self.components@);
        self.components.push(String::from(name));
        assert(texts(self.components@) == before.push(name@));
    }

    /// Continues the path by the names of `names` from `from` on.
    pub fn extend(&mut self, names: &Vec<String>, from: usize)
        requires
            from <= names.len(),
        ensures
            final(self)@ == old(self)@.extended(texts(names@).skip(from as int)),
    {
        extend_texts(&mut self.components, names, from);
    }

    /// The path that `suffix` means when it is written in the module of this path.
    pub fn resolve(&self, suffix: &WeslPath) -> (r: WeslPath)
        requires
            self@.resolvable(suffix@),
        ensures
            r@ == self@.resolved(suffix@),
    {
        of_wesl(&to_wesl(self).join_path(&to_wesl(suffix)))
    }

    /// The name that the path leads with, where it leads with one.
    pub fn head(&self) -> (r: Option<&str>)
        ensures
            match r {
                Some(name) => self@.head() == Some(name@),
                None => self@.head() is None,
            },
    {
        match &self.origin {
            WeslOrigin::Package(name) => Some(name.as_str()),
            _ => None,
        }
    }
}

}
