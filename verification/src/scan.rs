//! Which modules a source depends on.
//!
//! `import a::b::c` always reads as the item `c` in module `a::b`, so what makes `c` a module is
//! how it is *used*:
//!
//! * a bare use of `c` binds the item `c` inside module `a::b`, so only `a::b` is needed;
//! * a qualified use of `c::Item` reaches into the module `a::b::c`, so that module is needed too.
//!
//! An import that is not used at all counts as used bare.
//!
//! Nothing is guessed, so no dependency is ever fetched speculatively.

use vstd::prelude::*;

use crate::import::{import_of, import_views, ImportView, ShaderImport};
use crate::literal::is_lexable;
use crate::names::{bare_names, is_among, shown_names};
use crate::path::{path_views, OriginView, PathView, WeslOrigin, WeslPath};
use crate::reader::{read_source, wesl_syntax};
use crate::syntax::{
    entry_trees, import_trees, EntryTree, ImportEntry, ImportStmt, ImportTree, Imported,
    ImportedTree, Unit, UnitTree,
};
use crate::text::{same_text, texts};
use crate::usage::{shown_paths, used_module_paths};

verus! {

/// A name that an import makes known: the name that use sites say, the name that the item has in
/// its module, and that module. The two names differ where the import renames the item.
#[derive(Debug)]
pub struct Binding {
    pub bound: String,
    pub real: String,
    pub parent: WeslPath,
}

/// What a [`Binding`] says.
#[verifier::ext_equal]
pub struct BindingView {
    pub bound: Seq<char>,
    pub real: Seq<char>,
    pub parent: PathView,
}

impl View for Binding {
    type V = BindingView;

    open spec fn view(&self) -> BindingView {
        BindingView { bound: self.bound@, real: self.real@, parent: self.parent@ }
    }
}

/// What each binding of a list says.
pub open spec fn binding_views(list: Seq<Binding>) -> Seq<BindingView> {
    list.map_values(|b: Binding| b@)
}

impl ImportedTree {
    /// The names that it makes known when it is imported from `module`.
    pub open spec fn bindings(self, module: PathView) -> Seq<BindingView>
        decreases self,
    {
        match self {
            ImportedTree::Item { name, alias } => seq![
                BindingView {
                    bound: match alias {
                        Some(other) => other,
                        None => name,
                    },
                    real: name,
                    parent: module,
                },
            ],
            ImportedTree::List(list) => entry_list_bindings(list, module),
        }
    }
}

/// The names that a list makes known when it is imported from `module`.
pub open spec fn entry_list_bindings(list: Seq<EntryTree>, module: PathView) -> Seq<BindingView>
    decreases list,
{
    if list.len() == 0 {
        Seq::empty()
    } else {
        entry_list_bindings(list.drop_last(), module) + list.last().content.bindings(
            module.extended(list.last().names),
        )
    }
}

/// The names that a list without a path in front makes known: each entry leads with the name of
/// a package.
pub open spec fn package_list_bindings(list: Seq<EntryTree>) -> Seq<BindingView>
    decreases list.len(),
{
    if list.len() == 0 {
        Seq::empty()
    } else {
        let names = list.last().names;
        let before = package_list_bindings(list.drop_last());
        if names.len() == 0 {
            before
        } else {
            before + list.last().content.bindings(
                PathView { origin: OriginView::Package(names[0]), components: names.skip(1) },
            )
        }
    }
}

impl ImportTree {
    /// The names that an import statement in `module` makes known.
    pub open spec fn bindings(self, module: PathView) -> Seq<BindingView> {
        match (self.path, self.content) {
            (Some(path), content) => content.bindings(module.resolved(path)),
            (None, ImportedTree::List(list)) => package_list_bindings(list),
            (None, ImportedTree::Item { .. }) => Seq::empty(),
        }
    }
}

/// The names that a list of import statements in `module` makes known.
pub open spec fn import_list_bindings(list: Seq<ImportTree>, module: PathView) -> Seq<BindingView>
    decreases list.len(),
{
    if list.len() == 0 {
        Seq::empty()
    } else {
        import_list_bindings(list.drop_last(), module) + list.last().bindings(module)
    }
}

/// The first binding of `name`.
pub open spec fn find_binding(bindings: Seq<BindingView>, name: Seq<char>) -> Option<BindingView>
    decreases bindings.len(),
{
    if bindings.len() == 0 {
        None
    } else {
        match find_binding(bindings.drop_last(), name) {
            Some(binding) => Some(binding),
            None => if bindings.last().bound == name {
                Some(bindings.last())
            } else {
                None
            },
        }
    }
}

/// Whether one of the paths leads with `name`.
pub open spec fn leads(paths: Seq<PathView>, name: Seq<char>) -> bool {
    exists|i: int| 0 <= i < paths.len() && (#[trigger] paths[i]).head() == Some(name)
}

/// The module that a path at a use site in `module` means. Where it leads with a name that an
/// import bound, the rest continues from that item, by the item's real name; else the whole path
/// starts at `module`.
pub open spec fn reached(
    path: PathView,
    bindings: Seq<BindingView>,
    module: PathView,
) -> PathView {
    let imported = match path.head() {
        Some(name) => find_binding(bindings, name),
        None => None,
    };
    match imported {
        Some(binding) => binding.parent.child(binding.real).extended(path.components),
        None => module.resolved(path),
    }
}

/// Whether an imported name is used bare, or is not used at all.
pub open spec fn is_bare(name: Seq<char>, used: Seq<PathView>, bare: Seq<Seq<char>>) -> bool {
    bare.contains(name) || !leads(used, name)
}

/// The modules that the names come from that are not only used to lead a path. `used` are the
/// paths at use sites and `bare` the names of bare uses.
pub open spec fn bare_modules(
    bindings: Seq<BindingView>,
    used: Seq<PathView>,
    bare: Seq<Seq<char>>,
) -> Seq<PathView>
    decreases bindings.len(),
{
    if bindings.len() == 0 {
        Seq::empty()
    } else {
        let before = bare_modules(bindings.drop_last(), used, bare);
        if is_bare(bindings.last().bound, used, bare) {
            before.push(bindings.last().parent)
        } else {
            before
        }
    }
}

/// The modules that the paths at use sites mean.
pub open spec fn reached_modules(
    used: Seq<PathView>,
    bindings: Seq<BindingView>,
    module: PathView,
) -> Seq<PathView> {
    used.map_values(|path: PathView| reached(path, bindings, module))
}

/// The imports that name the modules of a list, without those that no import can name.
pub open spec fn named_imports(list: Seq<PathView>) -> Seq<ImportView>
    decreases list.len(),
{
    if list.len() == 0 {
        Seq::empty()
    } else {
        let before = named_imports(list.drop_last());
        match list.last().import() {
            Some(import) => before.push(import),
            None => before,
        }
    }
}

/// `s` with `x` at the end, unless `x` is in it.
pub open spec fn with_once<A>(s: Seq<A>, x: A) -> Seq<A> {
    if s.contains(x) {
        s
    } else {
        s.push(x)
    }
}

/// What occurs in `s`, each once, in the order in which it first occurs.
pub open spec fn distinct<A>(s: Seq<A>) -> Seq<A>
    decreases s.len(),
{
    if s.len() == 0 {
        Seq::empty()
    } else {
        with_once(distinct(s.drop_last()), s.last())
    }
}

impl UnitTree {
    /// The names that the imports of a source in `module` make known.
    pub open spec fn bindings(self, module: PathView) -> Seq<BindingView> {
        import_list_bindings(self.imports, module)
    }

    /// The modules that a source in `module` needs: first those that its bare names come from, then
    /// those that its use sites reach.
    pub open spec fn modules(self, module: PathView) -> Seq<PathView> {
        bare_modules(self.bindings(module), self.paths(), self.bare_names()) + reached_modules(
            self.paths(),
            self.bindings(module),
            module,
        )
    }

    /// What a source in `module` depends on.
    pub open spec fn dependencies(self, module: PathView) -> Seq<ImportView> {
        distinct(named_imports(self.modules(module)))
    }

    /// Whether every path that is written in the source can be read in `module` within a machine
    /// word of `super` steps.
    pub open spec fn readable(self, module: PathView) -> bool {
        &&& forall|i: int|
            0 <= i < self.imports.len() ==> (match (#[trigger] self.imports[i]).path {
                Some(path) => module.resolvable(path),
                None => true,
            })
        &&& forall|i: int|
            0 <= i < self.paths().len() ==> module.resolvable(#[trigger] self.paths()[i])
    }
}

/// What a source in `module` depends on, given what was read in it.
pub open spec fn source_dependencies(unit: Option<UnitTree>, module: PathView) -> Seq<ImportView> {
    match unit {
        Some(tree) => tree.dependencies(module),
        None => Seq::empty(),
    }
}

/// Keeping each element once loses none and adds none.
pub proof fn lemma_distinct_same_members<A>(s: Seq<A>)
    ensures
        forall|x: A| #[trigger] distinct(s).contains(x) <==> s.contains(x),
    decreases s.len(),
{
    if s.len() > 0 {
        let before = s.drop_last();
        lemma_distinct_same_members(before);
        assert forall|x: A| #[trigger] distinct(s).contains(x) <==> s.contains(x) by {
            assert(s == before.push(s.last()));
            lemma_push_contains(before, s.last(), x);
            lemma_push_contains(distinct(before), s.last(), x);
        }
    }
}

/// Pushing adds the last element and no other.
pub proof fn lemma_push_contains<A>(s: Seq<A>, last: A, x: A)
    ensures
        s.push(last).contains(x) <==> (s.contains(x) || x == last),
{
    if s.contains(x) {
        let i = choose|i: int| 0 <= i < s.len() && s[i] == x;
        assert(s.push(last)[i] == x);
    }
    assert(s.push(last)[s.len() as int] == last);
}

/// The import of each module of a list is among the imports of the list.
pub proof fn lemma_named_imports_contain(list: Seq<PathView>, path: PathView, import: ImportView)
    requires
        list.contains(path),
        path.import() == Some(import),
    ensures
        named_imports(list).contains(import),
    decreases list.len(),
{
    let before = list.drop_last();
    assert(list == before.push(list.last()));
    lemma_push_contains(before, list.last(), path);
    match list.last().import() {
        Some(named) => lemma_push_contains(named_imports(before), named, import),
        None => {},
    }
    if path != list.last() {
        lemma_named_imports_contain(before, path, import);
    }
}

/// Naming each module once gives the same imports as naming every module and keeping each import
/// once.
proof fn lemma_distinct_modules(list: Seq<PathView>)
    ensures
        distinct(named_imports(distinct(list))) == distinct(named_imports(list)),
    decreases list.len(),
{
    if list.len() > 0 {
        let before = list.drop_last();
        let last = list.last();
        lemma_distinct_modules(before);
        lemma_distinct_same_members(before);
        lemma_distinct_same_members(named_imports(before));
        if distinct(before).contains(last) {
            match last.import() {
                Some(import) => {
                    lemma_named_imports_contain(before, last, import);
                    assert(named_imports(list).drop_last() == named_imports(before));
                },
                None => {},
            }
        } else {
            assert(distinct(list).drop_last() == distinct(before));
            match last.import() {
                Some(import) => {
                    assert(named_imports(list).drop_last() == named_imports(before));
                    assert(named_imports(distinct(list)).drop_last() == named_imports(
                        distinct(before),
                    ));
                },
                None => {},
            }
        }
    }
}

/// Collects the names that `content` makes known when it is imported from the module at `path`.
fn leaves(content: &Imported, path: WeslPath, out: &mut Vec<Binding>)
    ensures
        binding_views(final(out)@) == binding_views(old(out)@) + content.tree().bindings(path@),
    decreases content,
{
    match content {
        Imported::Item { name, alias } => {
            let ghost before = binding_views(out@);
            let bound = match alias {
                Some(other) => other.clone(),
                None => name.clone(),
            };
            let binding = Binding { bound, real: name.clone(), parent: path };
            let ghost shown = binding@;
            out.push(binding);
            assert(binding_views(out@) == before.push(shown));
        },
        Imported::List(list) => list_leaves(list, &path, out),
    }
}

/// Collects the names that a list makes known when it is imported from the module at `path`.
fn list_leaves(list: &Vec<ImportEntry>, path: &WeslPath, out: &mut Vec<Binding>)
    ensures
        binding_views(final(out)@) == binding_views(old(out)@) + entry_list_bindings(
            entry_trees(list@),
            path@,
        ),
    decreases list,
{
    let ghost start = binding_views(out@);
    let ghost trees = entry_trees(list@);
    let mut i: usize = 0;
    while i < list.len()
        invariant
            i <= list.len(),
            trees == entry_trees(list@),
            binding_views(out@) == start + entry_list_bindings(trees.take(i as int), path@),
        decreases list.len() - i,
    {
        assert(trees.take(i + 1).drop_last() == trees.take(i as int));
        assert(decreases_to!(list => list@[i as int].content));
        let mut inner = path.clone();
        inner.extend(&list[i].names, 0);
        assert(texts(list@[i as int].names@).skip(0) == texts(list@[i as int].names@));
        leaves(&list[i].content, inner, out);
        i += 1;
    }
    assert(trees.take(trees.len() as int) == trees);
}

/// Collects the names that a list without a path in front makes known.
fn package_leaves(list: &Vec<ImportEntry>, out: &mut Vec<Binding>)
    ensures
        binding_views(final(out)@) == binding_views(old(out)@) + package_list_bindings(
            entry_trees(list@),
        ),
{
    let ghost start = binding_views(out@);
    let ghost trees = entry_trees(list@);
    let mut i: usize = 0;
    while i < list.len()
        invariant
            i <= list.len(),
            trees == entry_trees(list@),
            binding_views(out@) == start + package_list_bindings(trees.take(i as int)),
        decreases list.len() - i,
    {
        assert(trees.take(i + 1).drop_last() == trees.take(i as int));
        let names = &list[i].names;
        assert(texts(names@).len() == names@.len());
        if names.len() > 0 {
            let mut path = WeslPath {
                origin: WeslOrigin::Package(names[0].clone()),
                components: Vec::new(),
            };
            path.extend(names, 1);
            assert(path@.components == texts(names@).skip(1));
            leaves(&list[i].content, path, out);
        }
        i += 1;
    }
    assert(trees.take(trees.len() as int) == trees);
}

/// Collects the names that the import statements of a source in `module` make known.
pub fn import_bindings(imports: &Vec<ImportStmt>, module: &WeslPath) -> (r: Vec<Binding>)
    requires
        forall|i: int|
            0 <= i < imports.len() ==> (match (#[trigger] imports[i]).path {
                Some(path) => module@.resolvable(path@),
                None => true,
            }),
    ensures
        binding_views(r@) == import_list_bindings(import_trees(imports@), module@),
{
    let mut out: Vec<Binding> = Vec::new();
    let ghost trees = import_trees(imports@);
    assert(binding_views(out@) == Seq::<BindingView>::empty());
    let mut i: usize = 0;
    while i < imports.len()
        invariant
            i <= imports.len(),
            trees == import_trees(imports@),
            forall|i: int|
                0 <= i < imports.len() ==> (match (#[trigger] imports[i]).path {
                    Some(path) => module@.resolvable(path@),
                    None => true,
                }),
            binding_views(out@) == import_list_bindings(trees.take(i as int), module@),
        decreases imports.len() - i,
    {
        assert(trees.take(i + 1).drop_last() == trees.take(i as int));
        match &imports[i].path {
            Some(path) => leaves(&imports[i].content, module.resolve(path), &mut out),
            None => match &imports[i].content {
                Imported::List(list) => package_leaves(list, &mut out),
                Imported::Item { .. } => {},
            },
        }
        i += 1;
    }
    assert(trees.take(trees.len() as int) == trees);
    out
}

/// Adds a path that is not in the list yet.
fn push_required(required: &mut Vec<WeslPath>, path: WeslPath)
    ensures
        path_views(final(required)@) == with_once(path_views(old(required)@), path@),
{
    let ghost before = path_views(required@);
    let mut i: usize = 0;
    while i < required.len()
        invariant
            i <= required.len(),
            before == path_views(required@),
            forall|j: int| 0 <= j < i ==> before[j] != path@,
        decreases required.len() - i,
    {
        if required[i].same(&path) {
            assert(before[i as int] == path@);
            return;
        }
        i += 1;
    }
    assert(!before.contains(path@));
    let ghost shown = path@;
    required.push(path);
    assert(path_views(required@) == before.push(shown));
}

/// Adds an import that is not in the list yet.
fn push_import(imports: &mut Vec<ShaderImport>, import: ShaderImport)
    ensures
        import_views(final(imports)@) == with_once(import_views(old(imports)@), import@),
{
    let ghost before = import_views(imports@);
    let mut i: usize = 0;
    while i < imports.len()
        invariant
            i <= imports.len(),
            before == import_views(imports@),
            forall|j: int| 0 <= j < i ==> before[j] != import@,
        decreases imports.len() - i,
    {
        if imports[i].same(&import) {
            assert(before[i as int] == import@);
            return;
        }
        i += 1;
    }
    assert(!before.contains(import@));
    let ghost shown = import@;
    imports.push(import);
    assert(import_views(imports@) == before.push(shown));
}

/// Whether one of the paths leads with `name`.
fn is_led_by(used: &Vec<&WeslPath>, name: &str) -> (r: bool)
    ensures
        r == leads(shown_paths(used@), name@),
{
    let ghost shown = shown_paths(used@);
    let mut i: usize = 0;
    while i < used.len()
        invariant
            i <= used.len(),
            shown == shown_paths(used@),
            forall|j: int| 0 <= j < i ==> (#[trigger] shown[j]).head() != Some(name@),
        decreases used.len() - i,
    {
        match used[i].head() {
            Some(head) => if same_text(head, name) {
                assert(shown[i as int].head() == Some(name@));
                return true;
            },
            None => {},
        }
        assert(shown[i as int] == used@[i as int]@);
        i += 1;
    }
    false
}

/// Where the first binding of `name` stands.
fn find_bound(bindings: &Vec<Binding>, name: &str) -> (r: Option<usize>)
    ensures
        match r {
            Some(i) => i < bindings.len() && find_binding(binding_views(bindings@), name@) == Some(
                bindings@[i as int]@,
            ),
            None => find_binding(binding_views(bindings@), name@) is None,
        },
{
    let ghost shown = binding_views(bindings@);
    let mut i: usize = 0;
    let mut found: Option<usize> = None;
    while i < bindings.len()
        invariant
            i <= bindings.len(),
            shown == binding_views(bindings@),
            match found {
                Some(j) => j < i && find_binding(shown.take(i as int), name@) == Some(
                    bindings@[j as int]@,
                ),
                None => find_binding(shown.take(i as int), name@) is None,
            },
        decreases bindings.len() - i,
    {
        assert(shown.take(i + 1).drop_last() == shown.take(i as int));
        if found.is_none() && same_text(bindings[i].bound.as_str(), name) {
            found = Some(i);
        }
        i += 1;
    }
    assert(shown.take(shown.len() as int) == shown);
    found
}

/// The module that `path` means at a use site in `module`.
fn reach(path: &WeslPath, bindings: &Vec<Binding>, module: &WeslPath) -> (r: WeslPath)
    requires
        module@.resolvable(path@),
    ensures
        r@ == reached(path@, binding_views(bindings@), module@),
{
    let imported = match path.head() {
        Some(name) => find_bound(bindings, name),
        None => None,
    };
    match imported {
        Some(i) => {
            let mut reached = bindings[i].parent.clone();
            reached.push(bindings[i].real.as_str());
            reached.extend(&path.components, 0);
            assert(texts(path.components@).skip(0) == texts(path.components@));
            reached
        },
        None => module.resolve(path),
    }
}

/// What a source in `module` depends on, each once.
pub fn scan_imports(unit: &Unit, module: &WeslPath) -> (r: Vec<ShaderImport>)
    requires
        unit.tree().readable(module@),
    ensures
        import_views(r@) == unit.tree().dependencies(module@),
{
    let ghost tree = unit.tree();
    proof {
        assert forall|i: int| 0 <= i < unit.imports.len() implies (match (
        #[trigger] unit.imports[i]).path {
            Some(path) => module@.resolvable(path@),
            None => true,
        }) by {
            assert(tree.imports[i] == unit.imports[i].tree());
        }
    }
    let bindings = import_bindings(&unit.imports, module);
    let used = used_module_paths(unit);
    let bare = bare_names(unit);
    let ghost known = binding_views(bindings@);
    let ghost paths = shown_paths(used@);
    let ghost names = shown_names(bare@);

    let mut required: Vec<WeslPath> = Vec::new();
    assert(path_views(required@) == Seq::<PathView>::empty());
    let mut i: usize = 0;
    while i < bindings.len()
        invariant
            i <= bindings.len(),
            known == binding_views(bindings@),
            paths == shown_paths(used@),
            names == shown_names(bare@),
            path_views(required@) == distinct(bare_modules(known.take(i as int), paths, names)),
        decreases bindings.len() - i,
    {
        proof {
            assert(known.take(i + 1).drop_last() == known.take(i as int));
            let before = bare_modules(known.take(i as int), paths, names);
            assert(before.push(known[i as int].parent).drop_last() == before);
        }
        if is_among(&bare, &bindings[i].bound) || !is_led_by(&used, bindings[i].bound.as_str()) {
            push_required(&mut required, bindings[i].parent.clone());
        }
        i += 1;
    }
    assert(known.take(known.len() as int) == known);

    let ghost near = bare_modules(known, paths, names);
    let ghost far = reached_modules(paths, known, module@);
    assert(near + far.take(0) == near);
    let mut j: usize = 0;
    while j < used.len()
        invariant
            j <= used.len(),
            known == binding_views(bindings@),
            paths == shown_paths(used@),
            far == reached_modules(paths, known, module@),
            forall|i: int| 0 <= i < paths.len() ==> module@.resolvable(#[trigger] paths[i]),
            path_views(required@) == distinct(near + far.take(j as int)),
        decreases used.len() - j,
    {
        assert((near + far.take(j + 1)).drop_last() == near + far.take(j as int));
        assert(paths[j as int] == used@[j as int]@);
        push_required(&mut required, reach(used[j], &bindings, module));
        j += 1;
    }
    assert(far.take(far.len() as int) == far);

    let mut imports: Vec<ShaderImport> = Vec::new();
    assert(import_views(imports@) == Seq::<ImportView>::empty());
    let ghost needed = path_views(required@);
    let mut k: usize = 0;
    while k < required.len()
        invariant
            k <= required.len(),
            needed == path_views(required@),
            import_views(imports@) == distinct(named_imports(needed.take(k as int))),
        decreases required.len() - k,
    {
        proof {
            assert(needed.take(k + 1).drop_last() == needed.take(k as int));
            let before = named_imports(needed.take(k as int));
            assert(forall|x: ImportView| (#[trigger] before.push(x)).drop_last() == before);
        }
        match import_of(&required[k]) {
            Some(import) => push_import(&mut imports, import),
            None => {},
        }
        k += 1;
    }
    assert(needed.take(needed.len() as int) == needed);
    proof {
        lemma_distinct_modules(tree.modules(module@));
    }
    imports
}

/// What a source in `module` depends on, each once; nothing where the source does not parse.
pub fn scan_wesl_imports(source: &str, module: &WeslPath) -> (r: Vec<ShaderImport>)
    requires
        is_lexable(source@),
        wesl_syntax(source@) matches Some(unit) ==> unit.readable(module@),
    ensures
        import_views(r@) == source_dependencies(wesl_syntax(source@), module@),
{
    match read_source(source) {
        Some(unit) => scan_imports(&unit, module),
        None => {
            let none: Vec<ShaderImport> = Vec::new();
            assert(import_views(none@) == Seq::<ImportView>::empty());
            none
        },
    }
}

}
