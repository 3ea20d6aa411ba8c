//! Which modules a source needs, and in which order it asks for them.

use vstd::prelude::*;

use crate::import::ImportView;
use crate::laws::law_dependencies_are_what_is_used;
use crate::path::{OriginView, PathView};
use crate::scan::{
    bare_modules, distinct, find_binding, is_bare, leads, named_imports, reached, reached_modules,
    source_dependencies, BindingView,
};
use crate::shader::wesl_dependencies;
use crate::syntax::UnitTree;

verus! {

/// Of several imports under one name the first counts.
pub proof fn law_the_first_binding_counts(bindings: Seq<BindingView>, name: Seq<char>)
    ensures
        match find_binding(bindings, name) {
            Some(binding) => exists|i: int|
                0 <= i < bindings.len() && #[trigger] bindings[i] == binding && binding.bound
                    == name
                    && forall|j: int| 0 <= j < i ==> (#[trigger] bindings[j]).bound != name,
            None => forall|i: int|
                0 <= i < bindings.len() ==> (#[trigger] bindings[i]).bound != name,
        },
    decreases bindings.len(),
{
    if bindings.len() > 0 {
        let before = bindings.drop_last();
        law_the_first_binding_counts(before, name);
        match find_binding(before, name) {
            Some(binding) => {
                let i = choose|i: int|
                    0 <= i < before.len() && #[trigger] before[i] == binding && binding.bound
                        == name && forall|j: int|
                        0 <= j < i ==> (#[trigger] before[j]).bound != name;
                assert(bindings[i] == binding);
                assert forall|j: int| 0 <= j < i implies (#[trigger] bindings[j]).bound != name by {
                    assert(before[j] == bindings[j]);
                }
            },
            None => {
                assert forall|j: int| 0 <= j < before.len() implies (#[trigger] bindings[j]).bound
                    != name by {
                    assert(before[j] == bindings[j]);
                }
                if bindings.last().bound == name {
                    assert(bindings[bindings.len() - 1] == bindings.last());
                }
            },
        }
    }
}

/// A path in the source leads with a name exactly where it starts with that name.
pub proof fn law_leading_is_starting_with_a_name(paths: Seq<PathView>, name: Seq<char>)
    ensures
        leads(paths, name) <==> exists|i: int|
            0 <= i < paths.len() && (#[trigger] paths[i]).origin == OriginView::Package(name),
{
    if leads(paths, name) {
        let i = choose|i: int| 0 <= i < paths.len() && (#[trigger] paths[i]).head() == Some(name);
        assert(paths[i].origin == OriginView::Package(name));
    }
    if exists|i: int|
        0 <= i < paths.len() && (#[trigger] paths[i]).origin == OriginView::Package(name) {
        let i = choose|i: int|
            0 <= i < paths.len() && (#[trigger] paths[i]).origin == OriginView::Package(name);
        assert(paths[i].head() == Some(name));
    }
}

/// A path at a use site means what it would mean written out: where it leads with an imported name,
/// the path of the import with the item's own name stands for that name.
pub proof fn law_a_use_site_can_be_written_out(
    bindings: Seq<BindingView>,
    i: int,
    path: PathView,
    written: PathView,
    module: PathView,
)
    requires
        0 <= i < bindings.len(),
        path.origin == OriginView::Package(bindings[i].bound),
        forall|j: int| 0 <= j < i ==> (#[trigger] bindings[j]).bound != bindings[i].bound,
        bindings[i].parent == module.resolved(written),
    ensures
        reached(path, bindings, module) == module.resolved(
            written.child(bindings[i].real).extended(path.components),
        ),
{
    let name = bindings[i].bound;
    law_the_first_binding_counts(bindings, name);
    let found = find_binding(bindings, name)->Some_0;
    let k = choose|k: int|
        0 <= k < bindings.len() && #[trigger] bindings[k] == found && found.bound == name
            && forall|j: int| 0 <= j < k ==> (#[trigger] bindings[j]).bound != name;
    assert(k == i) by {
        if k < i {
            assert(bindings[k].bound != name);
        } else if i < k {
            assert(bindings[i].bound != name);
        }
    }
    let names = seq![bindings[i].real] + path.components;
    assert(written.child(bindings[i].real).extended(path.components) == written.extended(names));
    crate::grouping::law_resolving_keeps_what_follows(module, written, names);
    assert(reached(path, bindings, module) == module.resolved(written).extended(names));
}

/// A path at a use site that leads with no imported name is read in the module that writes it.
pub proof fn law_other_use_sites_are_read_in_their_module(
    bindings: Seq<BindingView>,
    path: PathView,
    module: PathView,
)
    requires
        forall|j: int|
            0 <= j < bindings.len() ==> path.origin != OriginView::Package(
                (#[trigger] bindings[j]).bound,
            ),
    ensures
        reached(path, bindings, module) == module.resolved(path),
{
    if let Some(name) = path.head() {
        law_the_first_binding_counts(bindings, name);
    }
}

/// The modules of bare names are listed import by import. An import counts if its name is used bare
/// or starts no path.
pub proof fn law_bare_modules_are_listed_import_by_import(
    a: Seq<BindingView>,
    b: Seq<BindingView>,
    one: BindingView,
    used: Seq<PathView>,
    bare: Seq<Seq<char>>,
)
    ensures
        bare_modules(a + b, used, bare) == bare_modules(a, used, bare) + bare_modules(
            b,
            used,
            bare,
        ),
        ({
            let leading = exists|i: int|
                0 <= i < used.len() && (#[trigger] used[i]).origin
                    == OriginView::Package(one.bound);
            if bare.contains(one.bound) || !leading {
                bare_modules(seq![one], used, bare) == seq![one.parent]
            } else {
                bare_modules(seq![one], used, bare).len() == 0
            }
        }),
    decreases b.len(),
{
    law_leading_is_starting_with_a_name(used, one.bound);
    assert(seq![one].drop_last() == Seq::<BindingView>::empty());
    reveal_with_fuel(bare_modules, 2);
    if b.len() == 0 {
        assert(a + b == a);
    } else {
        law_bare_modules_are_listed_import_by_import(a, b.drop_last(), one, used, bare);
        assert((a + b).drop_last() == a + b.drop_last());
    }
}

/// A module for each use site, in the order of the use sites.
pub proof fn law_each_use_site_means_a_module(
    used: Seq<PathView>,
    bindings: Seq<BindingView>,
    module: PathView,
    i: int,
)
    ensures
        reached_modules(used, bindings, module).len() == used.len(),
        0 <= i < used.len() ==> reached_modules(used, bindings, module)[i] == reached(
            used[i],
            bindings,
            module,
        ),
{
}

/// Each module is named by its import, in order; those without one are left out.
pub proof fn law_modules_are_named_in_order(a: Seq<PathView>, b: Seq<PathView>, one: PathView)
    ensures
        named_imports(a + b) == named_imports(a) + named_imports(b),
        one.import() matches Some(import) ==> named_imports(seq![one]) == seq![import],
        one.import() is None ==> named_imports(seq![one]).len() == 0,
    decreases b.len(),
{
    assert(seq![one].drop_last() == Seq::<PathView>::empty());
    reveal_with_fuel(named_imports, 2);
    if b.len() == 0 {
        assert(a + b == a);
    } else {
        law_modules_are_named_in_order(a, b.drop_last(), one);
        assert((a + b).drop_last() == a + b.drop_last());
    }
}

/// What is kept once is kept where it first stands: what follows in the list changes nothing of
/// what was kept before, and adds what is new, once.
pub proof fn law_the_first_of_each_is_kept<A>(a: Seq<A>, b: Seq<A>, x: A)
    ensures
        distinct(a).no_duplicates(),
        distinct(a).contains(x) <==> a.contains(x),
        distinct(a).len() <= distinct(a + b).len(),
        distinct(a + b).take(distinct(a).len() as int) == distinct(a),
    decreases a.len() + b.len(),
{
    crate::scan::lemma_distinct_same_members(a);
    if a.len() > 0 {
        law_the_first_of_each_is_kept(a.drop_last(), Seq::<A>::empty(), a.last());
        crate::scan::lemma_distinct_same_members(a.drop_last());
    }
    if b.len() == 0 {
        assert(a + b == a);
        assert(distinct(a).take(distinct(a).len() as int) == distinct(a));
    } else {
        law_the_first_of_each_is_kept(a, b.drop_last(), x);
        assert((a + b).drop_last() == a + b.drop_last());
        let before = distinct(a + b.drop_last());
        let after = distinct(a + b);
        assert(after.take(distinct(a).len() as int) == before.take(distinct(a).len() as int));
    }
}

/// A source first asks for the modules that its bare names come from, then for those that its use
/// sites reach, each once.
pub proof fn law_bare_names_are_asked_for_first(unit: UnitTree, module: PathView)
    ensures
        ({
            let (bindings, used) = (unit.bindings(module), unit.paths());
            let near = bare_modules(bindings, used, unit.bare_names());
            let far = reached_modules(used, bindings, module);
            &&& unit.modules(module) == near + far
            &&& unit.dependencies(module) == distinct(named_imports(near + far))
        }),
{
}

/// A source depends on a module exactly where an import from it is used bare or starts no path, or
/// where a use site reaches it.
pub proof fn law_a_dependency_has_a_reason(unit: UnitTree, module: PathView, import: ImportView)
    ensures
        unit.dependencies(module).contains(import) <==> {
            let (bindings, used) = (unit.bindings(module), unit.paths());
            ||| exists|i: int|
                0 <= i < bindings.len() && (#[trigger] bindings[i]).parent.import() == Some(import)
                    && (unit.bare_names().contains(bindings[i].bound) || forall|k: int|
                    0 <= k < used.len() ==> (#[trigger] used[k]).origin != OriginView::Package(
                        bindings[i].bound,
                    ))
            ||| exists|k: int|
                0 <= k < used.len() && reached(#[trigger] used[k], bindings, module).import()
                    == Some(import)
        },
{
    let (bindings, used) = (unit.bindings(module), unit.paths());
    let bare = unit.bare_names();
    law_dependencies_are_what_is_used(unit, module, import);
    assert forall|i: int| 0 <= i < bindings.len() implies (is_bare(
        (#[trigger] bindings[i]).bound,
        used,
        bare,
    ) <==> (bare.contains(bindings[i].bound) || forall|k: int|
        0 <= k < used.len() ==> (#[trigger] used[k]).origin != OriginView::Package(
            bindings[i].bound,
        ))) by {
        law_leading_is_starting_with_a_name(used, bindings[i].bound);
    }
}

/// A source that cannot be parsed depends on nothing, nor does one whose shader is in no module.
pub proof fn law_only_modules_have_dependencies(
    unit: Option<UnitTree>,
    import: ImportView,
    module: PathView,
)
    ensures
        source_dependencies(None, module).len() == 0,
        unit matches Some(tree) ==> source_dependencies(unit, module) == tree.dependencies(module),
        import.module() is None ==> wesl_dependencies(unit, import).len() == 0,
        import.module() matches Some(own) ==> wesl_dependencies(unit, import)
            == source_dependencies(unit, own),
{
}

/// In a module at the root or in a package every source can be read.
pub proof fn law_every_source_can_be_read_in_a_module(unit: UnitTree, module: PathView)
    requires
        !(module.origin is Relative),
    ensures
        unit.readable(module),
{
}

}
