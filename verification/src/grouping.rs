//! Import statements: how they can be written otherwise, and where the items live that they name.

use vstd::prelude::*;

use crate::path::{OriginView, PathView};
use crate::scan::{entry_list_bindings, import_list_bindings, package_list_bindings, BindingView};
use crate::syntax::{EntryTree, GlobalTree, ImportTree, ImportedTree, UnitTree};

verus! {

/// A path is continued name by name, from where it starts.
pub proof fn law_paths_are_continued(
    path: PathView,
    name: Seq<char>,
    a: Seq<Seq<char>>,
    b: Seq<Seq<char>>,
)
    ensures
        path.child(name).origin == path.origin,
        path.child(name).components == path.components.push(name),
        path.extended(Seq::empty()) == path,
        path.extended(seq![name]) == path.child(name),
        path.extended(a + b) == path.extended(a).extended(b),
{
    assert(path.extended(Seq::empty()) == path);
    assert(path.extended(seq![name]) == path.child(name));
    assert(path.extended(a + b) == path.extended(a).extended(b));
}

/// Only a path that starts with the name of a package leads with a name.
pub proof fn law_only_packages_lead_a_path(path: PathView, name: Seq<char>)
    ensures
        path.head() == Some(name) <==> path.origin == OriginView::Package(name),
{
}

/// What is written behind a path follows what the path means.
pub proof fn law_resolving_keeps_what_follows(
    module: PathView,
    path: PathView,
    names: Seq<Seq<char>>,
)
    ensures
        module.resolved(path.extended(names)) == module.resolved(path).extended(names),
{
    assert(module.resolved(path.extended(names)).components == module.resolved(path).extended(
        names,
    ).components);
}

/// `self` is the module that writes it, and each `super` leads to the module around it. In a module
/// without names there is no module around: a package and the root are their own, and a path that
/// is itself relative goes on above.
pub proof fn law_super_is_the_module_around(
    module: PathView,
    name: Seq<char>,
    steps: nat,
    names: Seq<Seq<char>>,
)
    ensures
        ({
            let here = PathView { origin: OriginView::Relative(0), components: names };
            let above = PathView { origin: OriginView::Relative(steps), components: names };
            let further = PathView { origin: OriginView::Relative(steps + 1), components: names };
            let root = PathView { origin: module.origin, components: Seq::empty() };
            &&& module.resolved(here) == module.extended(names)
            &&& module.child(name).resolved(further) == module.resolved(above)
            &&& root.resolved(above) == (PathView {
                origin: match module.origin {
                    OriginView::Relative(own) => OriginView::Relative(own + steps),
                    _ => module.origin,
                },
                components: names,
            })
        }),
{
    let here = PathView { origin: OriginView::Relative(0), components: names };
    let above = PathView { origin: OriginView::Relative(steps), components: names };
    let further = PathView { origin: OriginView::Relative(steps + 1), components: names };
    let root = PathView { origin: module.origin, components: Seq::empty() };
    assert(module.components.take(module.components.len() as int) == module.components);
    assert(module.resolved(here) == module.extended(names));
    let inner = module.child(name);
    if steps <= module.components.len() {
        let kept = module.components.len() - steps;
        assert(inner.components.take(kept) == module.components.take(kept));
    } else {
        assert(inner.components.take(0) == module.components.take(0));
    }
    assert(inner.resolved(further) == module.resolved(above));
    assert(root.components.take(0) + names == names);
}

/// `package` is the package of the module that writes it, or the root; another package is reached
/// from inside a package under both names, with a slash between them.
pub proof fn law_packages_are_resolved_from_their_module(
    module: PathView,
    name: Seq<char>,
    names: Seq<Seq<char>>,
)
    ensures
        ({
            let own = PathView { origin: OriginView::Absolute, components: names };
            let other = PathView { origin: OriginView::Package(name), components: names };
            &&& module.resolved(own).components == names
            &&& module.resolved(other).components == names
            &&& match module.origin {
                OriginView::Package(outer) => {
                    &&& module.resolved(own).origin == module.origin
                    &&& module.resolved(other).origin == OriginView::Package(
                        outer + seq!['/'] + name,
                    )
                },
                _ => module.resolved(own) == own && module.resolved(other) == other,
            }
        }),
{
}

proof fn lemma_entries_sum(a: Seq<EntryTree>, b: Seq<EntryTree>, module: PathView)
    ensures
        entry_list_bindings(a + b, module) == entry_list_bindings(a, module) + entry_list_bindings(
            b,
            module,
        ),
        package_list_bindings(a + b) == package_list_bindings(a) + package_list_bindings(b),
    decreases b.len(),
{
    if b.len() == 0 {
        assert(a + b == a);
    } else {
        lemma_entries_sum(a, b.drop_last(), module);
        assert((a + b).drop_last() == a + b.drop_last());
    }
}

proof fn lemma_entry_one(entry: EntryTree, module: PathView)
    ensures
        entry_list_bindings(seq![entry], module) == entry.content.bindings(
            module.extended(entry.names),
        ),
        package_list_bindings(seq![entry]) == if entry.names.len() == 0 {
            Seq::empty()
        } else {
            entry.content.bindings(
                PathView {
                    origin: OriginView::Package(entry.names[0]),
                    components: entry.names.skip(1),
                },
            )
        },
{
    assert(seq![entry].drop_last() == Seq::<EntryTree>::empty());
    reveal_with_fuel(entry_list_bindings, 2);
    reveal_with_fuel(package_list_bindings, 2);
}

/// An import of one item makes one name known: the name behind `as`, or else the item's own. The
/// item lives in the module that the path means. Without a path nothing is imported.
pub proof fn law_an_item_lives_where_its_path_leads(
    path: PathView,
    name: Seq<char>,
    other: Seq<char>,
    module: PathView,
)
    ensures
        ({
            let plain = ImportedTree::Item { name, alias: None };
            let renamed = ImportedTree::Item { name, alias: Some(other) };
            let parent = module.resolved(path);
            &&& ImportTree { path: Some(path), content: plain }.bindings(module) == seq![
                BindingView { bound: name, real: name, parent },
            ]
            &&& ImportTree { path: Some(path), content: renamed }.bindings(module) == seq![
                BindingView { bound: other, real: name, parent },
            ]
            &&& ImportTree { path: None, content: plain }.bindings(module).len() == 0
            &&& ImportTree { path: None, content: renamed }.bindings(module).len() == 0
        }),
{
}

/// A list of imports can be cut anywhere.
pub proof fn law_import_lists_can_be_cut(
    path: Option<PathView>,
    a: Seq<EntryTree>,
    b: Seq<EntryTree>,
    module: PathView,
)
    ensures
        ({
            let whole = ImportTree { path, content: ImportedTree::List(a + b) };
            let front = ImportTree { path, content: ImportedTree::List(a) };
            let back = ImportTree { path, content: ImportedTree::List(b) };
            whole.bindings(module) == front.bindings(module) + back.bindings(module)
        }),
{
    match path {
        Some(p) => lemma_entries_sum(a, b, module.resolved(p)),
        None => lemma_entries_sum(a, b, module),
    }
}

/// `import p::{a::b::x}` is `import p::a::b::x`, and so with a list in place of the item.
pub proof fn law_an_entry_reads_as_an_import(
    path: PathView,
    names: Seq<Seq<char>>,
    content: ImportedTree,
    module: PathView,
)
    ensures
        ({
            let entry = EntryTree { names, content };
            let listed = ImportTree {
                path: Some(path),
                content: ImportedTree::List(seq![entry]),
            };
            let alone = ImportTree { path: Some(path.extended(names)), content };
            listed.bindings(module) == alone.bindings(module)
        }),
{
    let entry = EntryTree { names, content };
    lemma_entry_one(entry, module.resolved(path));
    law_resolving_keeps_what_follows(module, path, names);
    let alone = ImportTree { path: Some(path.extended(names)), content };
    let listed = ImportTree { path: Some(path), content: ImportedTree::List(seq![entry]) };
    lemma_with_path(alone, path.extended(names), module);
    lemma_with_path(listed, path, module);
    lemma_list_bindings(seq![entry], module.resolved(path));
}

proof fn lemma_with_path(import: ImportTree, path: PathView, module: PathView)
    requires
        import.path == Some(path),
    ensures
        import.bindings(module) == import.content.bindings(module.resolved(path)),
{
}

proof fn lemma_list_bindings(list: Seq<EntryTree>, module: PathView)
    ensures
        ImportedTree::List(list).bindings(module) == entry_list_bindings(list, module),
{
}

/// A list without a path in front names packages: `import {p::a::x}` is what `import p::a::x` is at
/// the root, wherever it is written. An entry that leads with no name imports nothing.
pub proof fn law_an_entry_without_path_leads_with_its_package(
    package: Seq<char>,
    names: Seq<Seq<char>>,
    content: ImportedTree,
    module: PathView,
)
    ensures
        ({
            let root = PathView { origin: OriginView::Absolute, components: Seq::empty() };
            let path = PathView { origin: OriginView::Package(package), components: names };
            let entry = EntryTree { names: seq![package] + names, content };
            let listed = ImportTree { path: None, content: ImportedTree::List(seq![entry]) };
            let alone = ImportTree { path: Some(path), content };
            listed.bindings(module) == alone.bindings(root)
        }),
        ({
            let entry = EntryTree { names: Seq::empty(), content };
            let listed = ImportTree { path: None, content: ImportedTree::List(seq![entry]) };
            listed.bindings(module).len() == 0
        }),
{
    let root = PathView { origin: OriginView::Absolute, components: Seq::empty() };
    let path = PathView { origin: OriginView::Package(package), components: names };
    let entry = EntryTree { names: seq![package] + names, content };
    let alone = ImportTree { path: Some(path), content };
    lemma_entry_one(entry, module);
    lemma_entry_one(EntryTree { names: Seq::empty(), content }, module);
    assert(entry.names.skip(1) == names);
    assert(root.resolved(path) == path);
    lemma_with_path(alone, path, root);
}

proof fn lemma_imports_sum(a: Seq<ImportTree>, b: Seq<ImportTree>, module: PathView)
    ensures
        import_list_bindings(a + b, module) == import_list_bindings(a, module)
            + import_list_bindings(b, module),
    decreases b.len(),
{
    if b.len() == 0 {
        assert(a + b == a);
    } else {
        lemma_imports_sum(a, b.drop_last(), module);
        assert((a + b).drop_last() == a + b.drop_last());
    }
}

proof fn lemma_import_one(import: ImportTree, module: PathView)
    ensures
        import_list_bindings(seq![import], module) == import.bindings(module),
{
    assert(seq![import].drop_last() == Seq::<ImportTree>::empty());
    reveal_with_fuel(import_list_bindings, 2);
}

/// The imports of a source make known what each statement does, in the order of the statements.
pub proof fn law_imports_are_read_statement_by_statement(
    a: Seq<ImportTree>,
    b: Seq<ImportTree>,
    one: ImportTree,
    declarations: Seq<GlobalTree>,
    module: PathView,
)
    ensures
        ({
            let both = UnitTree { imports: a + b, declarations };
            let front = UnitTree { imports: a, declarations: Seq::empty() };
            let back = UnitTree { imports: b, declarations: Seq::empty() };
            let single = UnitTree { imports: seq![one], declarations };
            &&& both.bindings(module) == front.bindings(module) + back.bindings(module)
            &&& single.bindings(module) == one.bindings(module)
        }),
{
    lemma_imports_sum(a, b, module);
    lemma_import_one(one, module);
}

/// A list of imports makes known what its entries make known one by one.
proof fn lemma_grouped(
    path: PathView,
    list: Seq<EntryTree>,
    alone: Seq<ImportTree>,
    module: PathView,
)
    requires
        alone.len() == list.len(),
        forall|i: int|
            0 <= i < list.len() ==> (#[trigger] alone[i]) == (ImportTree {
                path: Some(path.extended(list[i].names)),
                content: list[i].content,
            }),
    ensures
        ({
            let group = ImportTree { path: Some(path), content: ImportedTree::List(list) };
            group.bindings(module) == import_list_bindings(alone, module)
        }),
    decreases list.len(),
{
    let group = ImportTree { path: Some(path), content: ImportedTree::List(list) };
    lemma_with_path(group, path, module);
    lemma_list_bindings(list, module.resolved(path));
    if list.len() > 0 {
        let (before, last) = (list.drop_last(), list.last());
        let rest = ImportTree { path: Some(path), content: ImportedTree::List(before) };
        lemma_grouped(path, before, alone.drop_last(), module);
        lemma_with_path(rest, path, module);
        lemma_list_bindings(before, module.resolved(path));
        assert(alone.last() == alone[alone.len() - 1]);
        lemma_with_path(alone.last(), path.extended(last.names), module);
        law_resolving_keeps_what_follows(module, path, last.names);
    }
}

/// Grouping changes nothing: the statements `import p::e1; ..; import p::en` in place of
/// `import p::{e1, .., en}` make the same known, and the source depends on the same.
pub proof fn law_grouping_imports_changes_nothing(
    before: Seq<ImportTree>,
    path: PathView,
    list: Seq<EntryTree>,
    alone: Seq<ImportTree>,
    after: Seq<ImportTree>,
    declarations: Seq<GlobalTree>,
    module: PathView,
)
    requires
        alone.len() == list.len(),
        forall|i: int|
            0 <= i < list.len() ==> (#[trigger] alone[i]) == (ImportTree {
                path: Some(path.extended(list[i].names)),
                content: list[i].content,
            }),
    ensures
        ({
            let group = ImportTree { path: Some(path), content: ImportedTree::List(list) };
            let grouped = UnitTree { imports: before + seq![group] + after, declarations };
            let single = UnitTree { imports: before + alone + after, declarations };
            &&& grouped.bindings(module) == single.bindings(module)
            &&& grouped.dependencies(module) == single.dependencies(module)
        }),
{
    let group = ImportTree { path: Some(path), content: ImportedTree::List(list) };
    let grouped = UnitTree { imports: before + seq![group] + after, declarations };
    let single = UnitTree { imports: before + alone + after, declarations };
    lemma_grouped(path, list, alone, module);
    lemma_import_one(group, module);
    lemma_imports_sum(before, seq![group], module);
    lemma_imports_sum(before + seq![group], after, module);
    lemma_imports_sum(before, alone, module);
    lemma_imports_sum(before + alone, after, module);
    assert(grouped.bindings(module) == single.bindings(module));
    assert(grouped.paths() == single.paths());
    assert(grouped.bare_names() == single.bare_names());
}

/// Whether a path starts where another one does and goes through it.
pub open spec fn is_inside(path: PathView, outer: PathView) -> bool {
    &&& path.origin == outer.origin
    &&& outer.components.len() <= path.components.len()
    &&& path.components.take(outer.components.len() as int) == outer.components
}

proof fn lemma_inside_extended(path: PathView, outer: PathView, names: Seq<Seq<char>>)
    requires
        is_inside(path, outer.extended(names)),
    ensures
        is_inside(path, outer),
{
    let whole = outer.components + names;
    assert(path.components.take(outer.components.len() as int) == whole.take(
        outer.components.len() as int,
    ));
    assert(whole.take(outer.components.len() as int) == outer.components);
}

proof fn lemma_content_inside(content: ImportedTree, module: PathView, i: int)
    requires
        0 <= i < content.bindings(module).len(),
    ensures
        is_inside(content.bindings(module)[i].parent, module),
    decreases content,
{
    match content {
        ImportedTree::Item { name, alias } => {
            assert(module.components.take(module.components.len() as int) == module.components);
        },
        ImportedTree::List(list) => lemma_entries_inside(list, module, i),
    }
}

proof fn lemma_entries_inside(list: Seq<EntryTree>, module: PathView, i: int)
    requires
        0 <= i < entry_list_bindings(list, module).len(),
    ensures
        is_inside(entry_list_bindings(list, module)[i].parent, module),
    decreases list,
{
    let front = entry_list_bindings(list.drop_last(), module);
    let inner = module.extended(list.last().names);
    if i < front.len() {
        lemma_entries_inside(list.drop_last(), module, i);
    } else {
        lemma_content_inside(list.last().content, inner, i - front.len());
        lemma_inside_extended(
            entry_list_bindings(list, module)[i].parent,
            module,
            list.last().names,
        );
    }
}

/// Whatever a statement with a path imports, alone or in however deep a list, lives in the module
/// that the path means, or inside it.
pub proof fn law_imported_items_live_inside_the_path(
    path: PathView,
    content: ImportedTree,
    module: PathView,
    i: int,
)
    requires
        0 <= i < (ImportTree { path: Some(path), content }.bindings(module).len()),
    ensures
        ({
            let parent = ImportTree { path: Some(path), content }.bindings(module)[i].parent;
            let outer = module.resolved(path);
            &&& parent.origin == outer.origin
            &&& outer.components.len() <= parent.components.len()
            &&& parent.components.take(outer.components.len() as int) == outer.components
        }),
{
    lemma_with_path(ImportTree { path: Some(path), content }, path, module);
    lemma_content_inside(content, module.resolved(path), i);
}

}
