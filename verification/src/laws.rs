//! What holds of the modules that a source is found to depend on.

use vstd::prelude::*;

use crate::import::ImportView;
use crate::path::PathView;
use crate::scan::{
    bare_modules, distinct, find_binding, is_bare, leads, lemma_distinct_same_members,
    lemma_named_imports_contain, lemma_push_contains, named_imports, reached, reached_modules,
    BindingView,
};
use crate::syntax::{GlobalTree, ImportTree, ImportedTree, UnitTree};

verus! {

/// Whether an imported name that is used bare, or not at all, comes from the module that `import`
/// names.
pub open spec fn needed_bare(
    bindings: Seq<BindingView>,
    used: Seq<PathView>,
    bare: Seq<Seq<char>>,
    import: ImportView,
) -> bool {
    exists|i: int|
        0 <= i < bindings.len() && is_bare((#[trigger] bindings[i]).bound, used, bare)
            && bindings[i].parent.import() == Some(import)
}

/// Whether a path at a use site reaches into the module that `import` names.
pub open spec fn needed_by_use(
    bindings: Seq<BindingView>,
    used: Seq<PathView>,
    module: PathView,
    import: ImportView,
) -> bool {
    exists|i: int|
        0 <= i < used.len() && reached(#[trigger] used[i], bindings, module).import() == Some(import)
}

/// Each import of a list of modules names one of them.
pub proof fn lemma_named_imports_come_from(list: Seq<PathView>, import: ImportView)
    requires
        named_imports(list).contains(import),
    ensures
        exists|i: int| 0 <= i < list.len() && (#[trigger] list[i]).import() == Some(import),
    decreases list.len(),
{
    if list.len() > 0 {
        let before = list.drop_last();
        if list.last().import() == Some(import) {
            assert(list[list.len() - 1].import() == Some(import));
        } else {
            match list.last().import() {
                Some(other) => lemma_push_contains(named_imports(before), other, import),
                None => {},
            }
            lemma_named_imports_come_from(before, import);
            let i = choose|i: int|
                0 <= i < before.len() && (#[trigger] before[i]).import() == Some(import);
            assert(list[i].import() == Some(import));
        }
    }
}

/// Each bare module is the one that a bare name comes from.
proof fn lemma_bare_modules_come_from(
    bindings: Seq<BindingView>,
    used: Seq<PathView>,
    bare: Seq<Seq<char>>,
    k: int,
)
    requires
        0 <= k < bare_modules(bindings, used, bare).len(),
    ensures
        exists|i: int|
            0 <= i < bindings.len() && is_bare((#[trigger] bindings[i]).bound, used, bare)
                && bindings[i].parent == bare_modules(bindings, used, bare)[k],
    decreases bindings.len(),
{
    let before = bindings.drop_last();
    let modules = bare_modules(bindings, used, bare);
    if is_bare(bindings.last().bound, used, bare) && k == modules.len() - 1 {
        assert(bindings[bindings.len() - 1].parent == modules[k]);
    } else {
        lemma_bare_modules_come_from(before, used, bare, k);
        let i = choose|i: int|
            0 <= i < before.len() && is_bare((#[trigger] before[i]).bound, used, bare)
                && before[i].parent == bare_modules(before, used, bare)[k];
        assert(bindings[i].parent == modules[k]);
    }
}

/// The module that a bare name comes from is a bare module.
proof fn lemma_bare_modules_contain(
    bindings: Seq<BindingView>,
    used: Seq<PathView>,
    bare: Seq<Seq<char>>,
    i: int,
)
    requires
        0 <= i < bindings.len(),
        is_bare(bindings[i].bound, used, bare),
    ensures
        bare_modules(bindings, used, bare).contains(bindings[i].parent),
    decreases bindings.len(),
{
    let before = bindings.drop_last();
    let rest = bare_modules(before, used, bare);
    lemma_push_contains(rest, bindings.last().parent, bindings[i].parent);
    if i < before.len() {
        lemma_bare_modules_contain(before, used, bare, i);
        assert(before[i] == bindings[i]);
    }
}

/// Nothing is guessed and nothing is missed: a source depends on exactly the modules that its
/// bare names come from and those that its use sites reach.
pub proof fn law_dependencies_are_what_is_used(unit: UnitTree, module: PathView, import: ImportView)
    ensures
        unit.dependencies(module).contains(import) <==> (needed_bare(
            unit.bindings(module),
            unit.paths(),
            unit.bare_names(),
            import,
        ) || needed_by_use(unit.bindings(module), unit.paths(), module, import)),
{
    let bindings = unit.bindings(module);
    let used = unit.paths();
    let bare = unit.bare_names();
    let near = bare_modules(bindings, used, bare);
    let far = reached_modules(used, bindings, module);
    let modules = unit.modules(module);
    lemma_distinct_same_members(named_imports(modules));
    if named_imports(modules).contains(import) {
        lemma_named_imports_come_from(modules, import);
        let k = choose|k: int|
            0 <= k < modules.len() && (#[trigger] modules[k]).import() == Some(import);
        if k < near.len() {
            lemma_bare_modules_come_from(bindings, used, bare, k);
            let i = choose|i: int|
                0 <= i < bindings.len() && is_bare((#[trigger] bindings[i]).bound, used, bare)
                    && bindings[i].parent == near[k];
            assert(bindings[i].parent.import() == Some(import));
            assert(needed_bare(bindings, used, bare, import));
        } else {
            let i = k - near.len();
            assert(modules[k] == far[i]);
            assert(reached(used[i], bindings, module).import() == Some(import));
            assert(needed_by_use(bindings, used, module, import));
        }
    }
    if needed_bare(bindings, used, bare, import) {
        let i = choose|i: int|
            0 <= i < bindings.len() && is_bare((#[trigger] bindings[i]).bound, used, bare)
                && bindings[i].parent.import() == Some(import);
        lemma_bare_modules_contain(bindings, used, bare, i);
        let k = choose|k: int| 0 <= k < near.len() && near[k] == bindings[i].parent;
        assert(modules[k] == bindings[i].parent);
        lemma_named_imports_contain(modules, bindings[i].parent, import);
    }
    if needed_by_use(bindings, used, module, import) {
        let i = choose|i: int|
            0 <= i < used.len() && reached(#[trigger] used[i], bindings, module).import() == Some(
                import,
            );
        assert(far[i] == reached(used[i], bindings, module));
        assert(modules[near.len() + i] == far[i]);
        lemma_named_imports_contain(modules, far[i], import);
    }
}

/// No dependency is listed twice.
pub proof fn law_dependencies_are_distinct(unit: UnitTree, module: PathView)
    ensures
        unit.dependencies(module).no_duplicates(),
{
    lemma_distinct_no_duplicates(named_imports(unit.modules(module)));
}

/// Keeping each element once leaves no duplicates.
proof fn lemma_distinct_no_duplicates<A>(s: Seq<A>)
    ensures
        distinct(s).no_duplicates(),
    decreases s.len(),
{
    if s.len() > 0 {
        lemma_distinct_no_duplicates(s.drop_last());
    }
}

/// A bare use of an imported name binds an item of the module that it was imported from, so that
/// module is a dependency, whatever else the name is used for.
pub proof fn law_bare_use_needs_the_parent(
    unit: UnitTree,
    module: PathView,
    i: int,
    import: ImportView,
)
    requires
        0 <= i < unit.bindings(module).len(),
        unit.bare_names().contains(unit.bindings(module)[i].bound),
        unit.bindings(module)[i].parent.import() == Some(import),
    ensures
        unit.dependencies(module).contains(import),
{
    law_dependencies_are_what_is_used(unit, module, import);
    assert(is_bare(unit.bindings(module)[i].bound, unit.paths(), unit.bare_names()));
    assert(needed_bare(unit.bindings(module), unit.paths(), unit.bare_names(), import));
}

/// An import that no use site leads with needs the module that it names an item of, even where the
/// item is not used.
pub proof fn law_unused_import_needs_the_parent(
    unit: UnitTree,
    module: PathView,
    i: int,
    import: ImportView,
)
    requires
        0 <= i < unit.bindings(module).len(),
        !leads(unit.paths(), unit.bindings(module)[i].bound),
        unit.bindings(module)[i].parent.import() == Some(import),
    ensures
        unit.dependencies(module).contains(import),
{
    law_dependencies_are_what_is_used(unit, module, import);
    assert(is_bare(unit.bindings(module)[i].bound, unit.paths(), unit.bare_names()));
    assert(needed_bare(unit.bindings(module), unit.paths(), unit.bare_names(), import));
}

/// A path at a use site that leads with an imported name reaches into that item, so the module of
/// the item, by its real name and with the names that follow, is a dependency.
pub proof fn law_qualified_use_needs_the_nested_module(
    unit: UnitTree,
    module: PathView,
    i: int,
    binding: BindingView,
    import: ImportView,
)
    requires
        0 <= i < unit.paths().len(),
        unit.paths()[i].head() matches Some(name) && find_binding(unit.bindings(module), name)
            == Some(binding),
        binding.parent.child(binding.real).extended(unit.paths()[i].components).import() == Some(
            import,
        ),
    ensures
        unit.dependencies(module).contains(import),
{
    law_dependencies_are_what_is_used(unit, module, import);
    assert(reached(unit.paths()[i], unit.bindings(module), module).import() == Some(import));
    assert(needed_by_use(unit.bindings(module), unit.paths(), module, import));
}

/// A path at a use site that leads with no imported name is a dependency as it is written, with no
/// import statement at all.
pub proof fn law_inline_path_is_a_dependency(
    unit: UnitTree,
    module: PathView,
    i: int,
    import: ImportView,
)
    requires
        0 <= i < unit.paths().len(),
        unit.paths()[i].head() matches Some(name) ==> find_binding(unit.bindings(module), name)
            is None,
        module.resolved(unit.paths()[i]).import() == Some(import),
    ensures
        unit.dependencies(module).contains(import),
{
    law_dependencies_are_what_is_used(unit, module, import);
    assert(reached(unit.paths()[i], unit.bindings(module), module).import() == Some(import));
    assert(needed_by_use(unit.bindings(module), unit.paths(), module, import));
}

/// The source whose one import statement imports the item `name` from `path`, perhaps under
/// another name.
pub open spec fn importing(
    path: PathView,
    name: Seq<char>,
    alias: Option<Seq<char>>,
    declarations: Seq<GlobalTree>,
) -> UnitTree {
    UnitTree {
        imports: seq![
            ImportTree { path: Some(path), content: ImportedTree::Item { name, alias } },
        ],
        declarations,
    }
}

/// The name that an import of `name` makes known.
pub open spec fn known_as(name: Seq<char>, alias: Option<Seq<char>>) -> Seq<char> {
    match alias {
        Some(other) => other,
        None => name,
    }
}

/// One import of one item makes one name known.
proof fn lemma_importing_binds(
    path: PathView,
    name: Seq<char>,
    alias: Option<Seq<char>>,
    declarations: Seq<GlobalTree>,
    module: PathView,
)
    ensures
        importing(path, name, alias, declarations).bindings(module) == seq![
            BindingView {
                bound: known_as(name, alias),
                real: name,
                parent: module.resolved(path),
            },
        ],
{
    let unit = importing(path, name, alias, declarations);
    assert(unit.imports.drop_last() == Seq::<ImportTree>::empty());
    reveal_with_fuel(crate::scan::import_list_bindings, 2);
    assert(unit.bindings(module) == unit.imports.last().bindings(module));
}

/// Where the one imported name is only used bare and no use site writes a path, the module that
/// it comes from is the only dependency: the name itself never becomes a module.
pub proof fn law_bare_use_needs_only_the_parent(
    path: PathView,
    name: Seq<char>,
    alias: Option<Seq<char>>,
    declarations: Seq<GlobalTree>,
    module: PathView,
)
    requires
        importing(path, name, alias, declarations).paths().len() == 0,
    ensures
        importing(path, name, alias, declarations).dependencies(module) == (
        match module.resolved(path).import() {
            Some(import) => seq![import],
            None => Seq::empty(),
        }),
{
    let unit = importing(path, name, alias, declarations);
    let bindings = unit.bindings(module);
    lemma_importing_binds(path, name, alias, declarations, module);
    let near = bare_modules(bindings, unit.paths(), unit.bare_names());
    assert(bindings.drop_last() == Seq::<BindingView>::empty());
    assert(!leads(unit.paths(), bindings.last().bound));
    reveal_with_fuel(crate::scan::bare_modules, 2);
    assert(near == seq![module.resolved(path)]);
    let modules = unit.modules(module);
    assert(modules == seq![module.resolved(path)]);
    assert(modules.drop_last() == Seq::<PathView>::empty());
    reveal_with_fuel(crate::scan::named_imports, 2);
    reveal_with_fuel(crate::scan::distinct, 2);
    match module.resolved(path).import() {
        Some(import) => {
            assert(named_imports(modules) == seq![import]);
            assert(named_imports(modules).drop_last() == Seq::<ImportView>::empty());
        },
        None => {},
    }
}

/// Where every path at a use site leads with the one name that is imported, and the name is not
/// used bare, the dependencies are the modules below that item and no others, not even the one that
/// it comes from. The name that the import gives the item decides what a use site leads with; the
/// item's own name decides which modules are meant.
pub proof fn law_qualified_use_needs_only_the_nested_modules(
    path: PathView,
    name: Seq<char>,
    alias: Option<Seq<char>>,
    declarations: Seq<GlobalTree>,
    module: PathView,
    import: ImportView,
)
    requires
        importing(path, name, alias, declarations).paths().len() > 0,
        !importing(path, name, alias, declarations).bare_names().contains(known_as(name, alias)),
        forall|i: int|
            0 <= i < importing(path, name, alias, declarations).paths().len() ==> (
            #[trigger] importing(path, name, alias, declarations).paths()[i]).head() == Some(
                known_as(name, alias),
            ),
    ensures
        importing(path, name, alias, declarations).dependencies(module).contains(import) <==> exists|
            i: int,
        |
            0 <= i < importing(path, name, alias, declarations).paths().len()
                && module.resolved(path).child(name).extended(
                (#[trigger] importing(path, name, alias, declarations).paths()[i]).components,
            ).import() == Some(import),
{
    let unit = importing(path, name, alias, declarations);
    let bindings = unit.bindings(module);
    let used = unit.paths();
    lemma_importing_binds(path, name, alias, declarations, module);
    law_dependencies_are_what_is_used(unit, module, import);
    assert(used[0].head() == Some(known_as(name, alias)));
    assert(leads(used, known_as(name, alias)));
    assert(!needed_bare(bindings, used, unit.bare_names(), import));
    assert(bindings.drop_last() == Seq::<BindingView>::empty());
    reveal_with_fuel(crate::scan::find_binding, 2);
    assert(find_binding(bindings, known_as(name, alias)) == Some(bindings[0]));
    assert forall|i: int| 0 <= i < used.len() implies reached(
        #[trigger] used[i],
        bindings,
        module,
    ) == module.resolved(path).child(name).extended(used[i].components) by {
        assert(used[i].head() == Some(known_as(name, alias)));
    }
}

}
