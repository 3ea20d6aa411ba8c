//! How edits of a source change what it depends on: renaming an import, and adding declarations.

use vstd::prelude::*;

use crate::path::{OriginView, PathView};
use crate::scan::{
    bare_modules, distinct, entry_list_bindings, find_binding, import_list_bindings, is_bare,
    leads, lemma_distinct_same_members, lemma_named_imports_contain, named_imports,
    package_list_bindings, reached, reached_modules, BindingView,
};
use crate::syntax::{EntryTree, GlobalTree, ImportTree, ImportedTree, UnitTree};

verus! {

impl ImportedTree {
    /// The same items, with each one that is known as `from` known as `to`.
    pub open spec fn renamed(self, from: Seq<char>, to: Seq<char>) -> ImportedTree
        decreases self,
    {
        match self {
            ImportedTree::Item { name, alias } => {
                let bound = match alias {
                    Some(other) => other,
                    None => name,
                };
                if bound == from {
                    ImportedTree::Item { name, alias: Some(to) }
                } else {
                    self
                }
            },
            ImportedTree::List(list) => ImportedTree::List(renamed_entries(list, from, to)),
        }
    }
}

/// The same entries, with each item that is known as `from` known as `to`.
pub open spec fn renamed_entries(
    list: Seq<EntryTree>,
    from: Seq<char>,
    to: Seq<char>,
) -> Seq<EntryTree>
    decreases list,
{
    if list.len() == 0 {
        Seq::empty()
    } else {
        renamed_entries(list.drop_last(), from, to).push(
            EntryTree {
                names: list.last().names,
                content: list.last().content.renamed(from, to),
            },
        )
    }
}

impl ImportTree {
    /// The same import, with each item that is known as `from` known as `to`.
    pub open spec fn renamed(self, from: Seq<char>, to: Seq<char>) -> ImportTree {
        ImportTree { path: self.path, content: self.content.renamed(from, to) }
    }
}

/// The same imports, with each item that is known as `from` known as `to`.
pub open spec fn renamed_imports(
    list: Seq<ImportTree>,
    from: Seq<char>,
    to: Seq<char>,
) -> Seq<ImportTree> {
    list.map_values(|import: ImportTree| import.renamed(from, to))
}

impl PathView {
    /// The same path, led by `to` where it was led by `from`.
    pub open spec fn led_anew(self, from: Seq<char>, to: Seq<char>) -> PathView {
        if self.head() == Some(from) {
            PathView { origin: OriginView::Package(to), components: self.components }
        } else {
            self
        }
    }
}

/// Whether `edited` is `unit` with `to` written for the imported name `from`: in the imports that
/// make it known, in front of the paths that lead with it, and where it is used bare. What else is
/// used bare stays.
pub open spec fn renames(unit: UnitTree, edited: UnitTree, from: Seq<char>, to: Seq<char>) -> bool {
    &&& edited.imports == renamed_imports(unit.imports, from, to)
    &&& edited.paths() == unit.paths().map_values(|path: PathView| path.led_anew(from, to))
    &&& edited.bare_names().contains(to) <==> unit.bare_names().contains(from)
    &&& forall|name: Seq<char>|
        name != from && name != to ==> (#[trigger] edited.bare_names().contains(name)
            <==> unit.bare_names().contains(name))
}

/// A binding under another name, where it was known as `from`.
pub open spec fn rebound(binding: BindingView, from: Seq<char>, to: Seq<char>) -> BindingView {
    if binding.bound == from {
        BindingView { bound: to, real: binding.real, parent: binding.parent }
    } else {
        binding
    }
}

/// Bindings under other names, where they were known as `from`.
pub open spec fn all_rebound(
    bindings: Seq<BindingView>,
    from: Seq<char>,
    to: Seq<char>,
) -> Seq<BindingView> {
    bindings.map_values(|binding: BindingView| rebound(binding, from, to))
}

proof fn lemma_all_rebound_sum(
    a: Seq<BindingView>,
    b: Seq<BindingView>,
    from: Seq<char>,
    to: Seq<char>,
)
    ensures
        all_rebound(a + b, from, to) == all_rebound(a, from, to) + all_rebound(b, from, to),
{
    assert(all_rebound(a + b, from, to) == all_rebound(a, from, to) + all_rebound(b, from, to));
}

proof fn lemma_content_rebound(
    content: ImportedTree,
    module: PathView,
    from: Seq<char>,
    to: Seq<char>,
)
    ensures
        content.renamed(from, to).bindings(module) == all_rebound(
            content.bindings(module),
            from,
            to,
        ),
    decreases content,
{
    match content {
        ImportedTree::Item { name, alias } => {
            assert(content.renamed(from, to).bindings(module) == all_rebound(
                content.bindings(module),
                from,
                to,
            ));
        },
        ImportedTree::List(list) => lemma_entries_rebound(list, module, from, to),
    }
}

proof fn lemma_entries_rebound(
    list: Seq<EntryTree>,
    module: PathView,
    from: Seq<char>,
    to: Seq<char>,
)
    ensures
        entry_list_bindings(renamed_entries(list, from, to), module) == all_rebound(
            entry_list_bindings(list, module),
            from,
            to,
        ),
    decreases list,
{
    if list.len() > 0 {
        let last = list.last();
        let inner = module.extended(last.names);
        let renamed = renamed_entries(list, from, to);
        lemma_entries_rebound(list.drop_last(), module, from, to);
        lemma_content_rebound(last.content, inner, from, to);
        assert(renamed.drop_last() == renamed_entries(list.drop_last(), from, to));
        lemma_all_rebound_sum(
            entry_list_bindings(list.drop_last(), module),
            last.content.bindings(inner),
            from,
            to,
        );
    } else {
        assert(all_rebound(entry_list_bindings(list, module), from, to) == Seq::<
            BindingView,
        >::empty());
    }
}

proof fn lemma_packages_rebound(list: Seq<EntryTree>, from: Seq<char>, to: Seq<char>)
    ensures
        package_list_bindings(renamed_entries(list, from, to)) == all_rebound(
            package_list_bindings(list),
            from,
            to,
        ),
    decreases list.len(),
{
    if list.len() > 0 {
        let last = list.last();
        let renamed = renamed_entries(list, from, to);
        lemma_packages_rebound(list.drop_last(), from, to);
        assert(renamed.drop_last() == renamed_entries(list.drop_last(), from, to));
        if last.names.len() > 0 {
            let package = PathView {
                origin: OriginView::Package(last.names[0]),
                components: last.names.skip(1),
            };
            lemma_content_rebound(last.content, package, from, to);
            lemma_all_rebound_sum(
                package_list_bindings(list.drop_last()),
                last.content.bindings(package),
                from,
                to,
            );
        }
    } else {
        assert(all_rebound(package_list_bindings(list), from, to) == Seq::<BindingView>::empty());
    }
}

/// Renaming imported items renames what the imports make known, and nothing else.
proof fn lemma_imports_rebound(
    list: Seq<ImportTree>,
    module: PathView,
    from: Seq<char>,
    to: Seq<char>,
)
    ensures
        import_list_bindings(renamed_imports(list, from, to), module) == all_rebound(
            import_list_bindings(list, module),
            from,
            to,
        ),
    decreases list.len(),
{
    if list.len() > 0 {
        let last = list.last();
        let renamed = renamed_imports(list, from, to);
        lemma_imports_rebound(list.drop_last(), module, from, to);
        assert(renamed.drop_last() == renamed_imports(list.drop_last(), from, to));
        match (last.path, last.content) {
            (Some(path), content) => {
                lemma_content_rebound(content, module.resolved(path), from, to);
            },
            (None, ImportedTree::List(entries)) => lemma_packages_rebound(entries, from, to),
            (None, ImportedTree::Item { name, alias }) => {
                assert(all_rebound(last.bindings(module), from, to) == Seq::<BindingView>::empty());
            },
        }
        lemma_all_rebound_sum(
            import_list_bindings(list.drop_last(), module),
            last.bindings(module),
            from,
            to,
        );
    } else {
        assert(all_rebound(import_list_bindings(list, module), from, to) == Seq::<
            BindingView,
        >::empty());
    }
}

/// Whether a list of bindings makes `name` known.
pub open spec fn binds(bindings: Seq<BindingView>, name: Seq<char>) -> bool {
    exists|i: int| 0 <= i < bindings.len() && (#[trigger] bindings[i]).bound == name
}

proof fn lemma_find_binding(bindings: Seq<BindingView>, name: Seq<char>)
    ensures
        find_binding(bindings, name) is Some <==> binds(bindings, name),
        find_binding(bindings, name) matches Some(binding) ==> binding.bound == name,
    decreases bindings.len(),
{
    if bindings.len() > 0 {
        let before = bindings.drop_last();
        lemma_find_binding(before, name);
        if binds(before, name) {
            let i = choose|i: int| 0 <= i < before.len() && (#[trigger] before[i]).bound == name;
            assert(bindings[i].bound == name);
        }
        if bindings.last().bound == name {
            assert(bindings[bindings.len() - 1].bound == name);
        }
        if binds(bindings, name) && !binds(before, name) {
            let i = choose|i: int| 0 <= i < bindings.len() && (#[trigger] bindings[i]).bound
                == name;
            assert(i < before.len() ==> before[i].bound == name);
        }
    }
}

/// What a name is bound to stays the same under the new name, and under each other name.
proof fn lemma_find_rebound(
    bindings: Seq<BindingView>,
    from: Seq<char>,
    to: Seq<char>,
    name: Seq<char>,
)
    requires
        !binds(bindings, to),
        name != to,
    ensures
        find_binding(all_rebound(bindings, from, to), if name == from { to } else { name }) == (
        match find_binding(bindings, name) {
            Some(binding) => Some(rebound(binding, from, to)),
            None => None,
        }),
    decreases bindings.len(),
{
    if bindings.len() > 0 {
        let before = bindings.drop_last();
        assert(!binds(before, to)) by {
            assert(forall|i: int| 0 <= i < before.len() ==> before[i] == bindings[i]);
        }
        lemma_find_rebound(before, from, to, name);
        assert(all_rebound(bindings, from, to).drop_last() == all_rebound(before, from, to));
        assert(bindings[bindings.len() - 1].bound != to);
    }
}

/// A path leads with the new name where it led with the old one, and with each other name where it
/// did before.
proof fn lemma_leads_anew(used: Seq<PathView>, from: Seq<char>, to: Seq<char>, name: Seq<char>)
    requires
        from != to,
        !leads(used, to),
        name != to,
    ensures
        leads(
            used.map_values(|path: PathView| path.led_anew(from, to)),
            if name == from { to } else { name },
        ) <==> leads(used, name),
{
    let anew = used.map_values(|path: PathView| path.led_anew(from, to));
    let said = if name == from { to } else { name };
    if leads(used, name) {
        let i = choose|i: int| 0 <= i < used.len() && (#[trigger] used[i]).head() == Some(name);
        assert(anew[i].head() == Some(said));
    }
    if leads(anew, said) {
        let i = choose|i: int| 0 <= i < anew.len() && (#[trigger] anew[i]).head() == Some(said);
        assert(used[i].head() != Some(to));
        assert(used[i].head() == Some(name));
    }
}

/// Under new names the same modules are needed for what is used bare.
proof fn lemma_bare_modules_rebound(
    unit: UnitTree,
    edited: UnitTree,
    bindings: Seq<BindingView>,
    from: Seq<char>,
    to: Seq<char>,
)
    requires
        renames(unit, edited, from, to),
        from != to,
        !binds(bindings, to),
        !leads(unit.paths(), to),
    ensures
        bare_modules(all_rebound(bindings, from, to), edited.paths(), edited.bare_names())
            == bare_modules(bindings, unit.paths(), unit.bare_names()),
    decreases bindings.len(),
{
    if bindings.len() > 0 {
        let before = bindings.drop_last();
        let name = bindings.last().bound;
        assert(bindings[bindings.len() - 1].bound != to);
        assert(!binds(before, to)) by {
            assert(forall|i: int| 0 <= i < before.len() ==> before[i] == bindings[i]);
        }
        lemma_bare_modules_rebound(unit, edited, before, from, to);
        assert(all_rebound(bindings, from, to).drop_last() == all_rebound(before, from, to));
        lemma_leads_anew(unit.paths(), from, to, name);
    }
}

/// The name that an import gives an item is a matter of the source alone: writing another name,
/// which the source does not use yet, everywhere for it changes no dependency.
pub proof fn law_renaming_an_import_changes_nothing(
    unit: UnitTree,
    edited: UnitTree,
    from: Seq<char>,
    to: Seq<char>,
    module: PathView,
)
    requires
        renames(unit, edited, from, to),
        from != to,
        binds(unit.bindings(module), from),
        !binds(unit.bindings(module), to),
        !leads(unit.paths(), to),
    ensures
        edited.dependencies(module) == unit.dependencies(module),
{
    let bindings = unit.bindings(module);
    let used = unit.paths();
    lemma_imports_rebound(unit.imports, module, from, to);
    assert(edited.bindings(module) == all_rebound(bindings, from, to));
    lemma_bare_modules_rebound(unit, edited, bindings, from, to);
    assert(reached_modules(edited.paths(), edited.bindings(module), module) == reached_modules(
        used,
        bindings,
        module,
    )) by {
        assert forall|i: int| 0 <= i < used.len() implies reached(
            edited.paths()[i],
            edited.bindings(module),
            module,
        ) == reached(#[trigger] used[i], bindings, module) by {
            match used[i].head() {
                Some(name) => {
                    assert(name != to);
                    lemma_find_rebound(bindings, from, to, name);
                    lemma_find_binding(bindings, from);
                },
                None => {},
            }
        }
    }
}

/// The imports that name two lists of modules are those of the first and then those of the second.
proof fn lemma_named_imports_sum(a: Seq<PathView>, b: Seq<PathView>)
    ensures
        named_imports(a + b) == named_imports(a) + named_imports(b),
    decreases b.len(),
{
    if b.len() == 0 {
        assert(a + b == a);
        assert(named_imports(a) + named_imports(b) == named_imports(a));
    } else {
        lemma_named_imports_sum(a, b.drop_last());
        assert((a + b).drop_last() == a + b.drop_last());
        assert((a + b).last() == b.last());
    }
}

/// Repeating what is in a list adds nothing to what occurs in it.
proof fn lemma_distinct_repeated<A>(s: Seq<A>, more: Seq<A>)
    requires
        forall|i: int| 0 <= i < more.len() ==> s.contains(#[trigger] more[i]),
    ensures
        distinct(s + more) == distinct(s),
    decreases more.len(),
{
    if more.len() == 0 {
        assert(s + more == s);
    } else {
        let before = more.drop_last();
        assert forall|i: int| 0 <= i < before.len() implies s.contains(#[trigger] before[i]) by {
            assert(before[i] == more[i]);
        }
        lemma_distinct_repeated(s, before);
        assert((s + more).drop_last() == s + before);
        assert(s.contains(more[more.len() - 1]));
        lemma_distinct_same_members(s);
    }
}

/// The modules that are needed for what is used bare depend on no more than which of the imported
/// names those are.
proof fn lemma_bare_modules_alike(
    bindings: Seq<BindingView>,
    used: Seq<PathView>,
    bare: Seq<Seq<char>>,
    other_used: Seq<PathView>,
    other_bare: Seq<Seq<char>>,
)
    requires
        forall|i: int|
            0 <= i < bindings.len() ==> is_bare((#[trigger] bindings[i]).bound, used, bare)
                == is_bare(bindings[i].bound, other_used, other_bare),
    ensures
        bare_modules(bindings, used, bare) == bare_modules(bindings, other_used, other_bare),
    decreases bindings.len(),
{
    if bindings.len() > 0 {
        let before = bindings.drop_last();
        assert forall|i: int| 0 <= i < before.len() implies is_bare(
            (#[trigger] before[i]).bound,
            used,
            bare,
        ) == is_bare(before[i].bound, other_used, other_bare) by {
            assert(before[i] == bindings[i]);
        }
        lemma_bare_modules_alike(before, used, bare, other_used, other_bare);
        assert(bindings[bindings.len() - 1] == bindings.last());
    }
}

impl UnitTree {
    /// The same source with one more declaration at its end.
    pub open spec fn with_declaration(self, declaration: GlobalTree) -> UnitTree {
        UnitTree { imports: self.imports, declarations: self.declarations.push(declaration) }
    }
}

/// A declaration that writes only paths that the source writes already, and uses no imported name
/// bare that was not bare before, changes no dependency.
pub proof fn law_repeated_uses_change_nothing(
    unit: UnitTree,
    declaration: GlobalTree,
    module: PathView,
)
    requires
        forall|i: int|
            0 <= i < declaration.paths().len() ==> unit.paths().contains(
                #[trigger] declaration.paths()[i],
            ),
        forall|i: int|
            0 <= i < unit.bindings(module).len() && declaration.bare_names().contains(
                (#[trigger] unit.bindings(module)[i]).bound,
            ) ==> is_bare(unit.bindings(module)[i].bound, unit.paths(), unit.bare_names()),
    ensures
        unit.with_declaration(declaration).dependencies(module) == unit.dependencies(module),
{
    let edited = unit.with_declaration(declaration);
    let bindings = unit.bindings(module);
    let (used, more) = (unit.paths(), declaration.paths());
    let (bare, more_bare) = (unit.bare_names(), declaration.bare_names());
    assert(edited.declarations.drop_last() == unit.declarations);
    assert(edited.paths() == used + more);
    assert(edited.bare_names() == bare + more_bare);
    assert forall|i: int| 0 <= i < bindings.len() implies is_bare(
        (#[trigger] bindings[i]).bound,
        used + more,
        bare + more_bare,
    ) == is_bare(bindings[i].bound, used, bare) by {
        let name = bindings[i].bound;
        lemma_sum_contains(bare, more_bare, name);
        if leads(used, name) {
            let k = choose|k: int| 0 <= k < used.len() && (#[trigger] used[k]).head() == Some(name);
            assert((used + more)[k].head() == Some(name));
        }
        if leads(used + more, name) {
            let k = choose|k: int|
                0 <= k < (used + more).len() && (#[trigger] (used + more)[k]).head() == Some(name);
            if k >= used.len() {
                assert(used.contains(more[k - used.len()]));
                let j = choose|j: int| 0 <= j < used.len() && used[j] == more[k - used.len()];
                assert(used[j].head() == Some(name));
            } else {
                assert(used[k].head() == Some(name));
            }
        }
    }
    lemma_bare_modules_alike(bindings, used + more, bare + more_bare, used, bare);

    let modules = unit.modules(module);
    let extra = reached_modules(more, bindings, module);
    assert(edited.modules(module) == modules + extra);
    lemma_named_imports_sum(modules, extra);
    let imports = named_imports(modules);
    let added = named_imports(extra);
    assert forall|i: int| 0 <= i < added.len() implies imports.contains(#[trigger] added[i]) by {
        crate::laws::lemma_named_imports_come_from(extra, added[i]);
        let k = choose|k: int|
            0 <= k < extra.len() && (#[trigger] extra[k]).import() == Some(added[i]);
        assert(used.contains(more[k]));
        let j = choose|j: int| 0 <= j < used.len() && used[j] == more[k];
        let near = bare_modules(bindings, used, bare);
        assert(reached_modules(used, bindings, module)[j] == extra[k]);
        assert(modules[near.len() + j] == extra[k]);
        lemma_named_imports_contain(modules, extra[k], added[i]);
    }
    lemma_distinct_repeated(imports, added);
}

proof fn lemma_sum_contains<A>(a: Seq<A>, b: Seq<A>, x: A)
    ensures
        (a + b).contains(x) <==> a.contains(x) || b.contains(x),
{
    if a.contains(x) {
        let i = choose|i: int| 0 <= i < a.len() && a[i] == x;
        assert((a + b)[i] == x);
    }
    if b.contains(x) {
        let i = choose|i: int| 0 <= i < b.len() && b[i] == x;
        assert((a + b)[a.len() + i] == x);
    }
}

}
