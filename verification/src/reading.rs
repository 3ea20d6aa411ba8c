//! Nothing is left out on the way from the parser to the trees: each tree says what its parts say,
//! and each list as many things as it has entries, in their order.

use vstd::prelude::*;

use crate::import::{import_views, ImportView, ShaderImport};
use crate::names::shown_names;
use crate::path::{path_views, wesl_path, OriginView, WeslOrigin, WeslPath};
use crate::reader::{
    wesl_alias, wesl_attribute, wesl_attributes, wesl_body, wesl_call, wesl_clause, wesl_clauses,
    wesl_const_assert, wesl_custom, wesl_declaration, wesl_else, wesl_else_if, wesl_else_ifs,
    wesl_entries, wesl_entry, wesl_expression, wesl_expressions, wesl_for, wesl_function,
    wesl_global, wesl_globals, wesl_if, wesl_import, wesl_imports, wesl_listed_expression,
    wesl_loop, wesl_member, wesl_members, wesl_optional_expression, wesl_parameter, wesl_parameters,
    wesl_selector, wesl_selectors, wesl_statement, wesl_statements, wesl_struct, wesl_switch,
    wesl_type, wesl_while, wesl_workgroup_size, ActionParts, AttributeParts, AttributeTree,
    BranchParts, ContentParts, DeclarationParts, ExpressionParts, ForParts, FunctionParts,
    GlobalParts, IfParts, StatementParts, SwitchParts, TypeParts, TypedParts,
};
use crate::scan::{binding_views, Binding};
use crate::syntax::{
    Action, ActionTree, Block, Branch, CallExpr, Condition, Continuing, Decl, ElseBranch, Expr,
    ExprTree, ForStmt, FunctionDecl, GlobalDecl, GlobalTree, IfStmt, ImportEntry, ImportStmt,
    Imported, ImportedTree, LoopStmt, PlainStmt, Selector, SelectorTree, Stmt, StmtTree, StructDecl,
    SwitchCase, SwitchStmt, TypeExpr, TypedName, Unit,
};
use crate::usage::shown_paths;
use wesl::syntax::{
    Attribute, CaseSelector, ElseIfClause, Expression, FormalParameter, GlobalDeclaration, Import,
    ImportStatement, Statement, StructMember, SwitchClause,
};

verus! {

/// The tree of a [`CallExpr`] says all that it holds.
pub proof fn law_call_expr_says_all(x: CallExpr, i: int)
    ensures
        x.tree().ty == x.ty.tree(),
        x.tree().arguments.len() == x.arguments@.len(),
        0 <= i < x.arguments@.len() ==> x.tree().arguments[i] == x.arguments@[i].tree(),
{
}

/// The tree of a [`TypeExpr`] says all that it holds.
pub proof fn law_type_expr_says_all(x: TypeExpr, i: int)
    ensures
        x.path is None <==> x.tree().path is None,
        x.path matches Some(y) ==> x.tree().path == Some(y@),
        x.tree().name == x.name@,
        x.template_args is None <==> x.tree().template_args is None,
        x.template_args matches Some(list) ==> x.tree().template_args matches Some(trees)
            && trees.len() == list@.len() && (0 <= i < list@.len() ==> trees[i] == list@[i].tree()),
{
}

/// The tree of a [`Decl`] says all that it holds.
pub proof fn law_decl_says_all(x: Decl, i: int)
    ensures
        x.tree().attributes.len() == x.attributes@.len(),
        0 <= i < x.attributes@.len() ==> x.tree().attributes[i] == x.attributes@[i].tree(),
        x.tree().name == x.name@,
        x.ty is None <==> x.tree().ty is None,
        x.ty matches Some(y) ==> x.tree().ty == Some(y.tree()),
        x.initializer is None <==> x.tree().initializer is None,
        x.initializer matches Some(y) ==> x.tree().initializer == Some(y.tree()),
{
}

/// The tree of a [`TypedName`] says all that it holds.
pub proof fn law_typed_name_says_all(x: TypedName, i: int)
    ensures
        x.tree().attributes.len() == x.attributes@.len(),
        0 <= i < x.attributes@.len() ==> x.tree().attributes[i] == x.attributes@[i].tree(),
        x.tree().name == x.name@,
        x.tree().ty == x.ty.tree(),
{
}

/// The tree of a [`Condition`] says all that it holds.
pub proof fn law_condition_says_all(x: Condition, i: int)
    ensures
        x.tree().attributes.len() == x.attributes@.len(),
        0 <= i < x.attributes@.len() ==> x.tree().attributes[i] == x.attributes@[i].tree(),
        x.tree().value == x.value.tree(),
{
}

/// The tree of a [`PlainStmt`] says all that it holds.
pub proof fn law_plain_stmt_says_all(x: PlainStmt, i: int)
    ensures
        x.tree().attributes.len() == x.attributes@.len(),
        0 <= i < x.attributes@.len() ==> x.tree().attributes[i] == x.attributes@[i].tree(),
        x.tree().action == x.action.tree(),
{
}

/// The tree of a [`Block`] says all that it holds.
pub proof fn law_block_says_all(x: Block, i: int)
    ensures
        x.tree().attributes.len() == x.attributes@.len(),
        0 <= i < x.attributes@.len() ==> x.tree().attributes[i] == x.attributes@[i].tree(),
        x.tree().statements.len() == x.statements@.len(),
        0 <= i < x.statements@.len() ==> x.tree().statements[i] == x.statements@[i].tree(),
{
}

/// The tree of a [`Branch`] says all that it holds.
pub proof fn law_branch_says_all(x: Branch, i: int)
    ensures
        x.tree().attributes.len() == x.attributes@.len(),
        0 <= i < x.attributes@.len() ==> x.tree().attributes[i] == x.attributes@[i].tree(),
        x.tree().condition == x.condition.tree(),
        x.tree().body == x.body.tree(),
{
}

/// The tree of a [`IfStmt`] says all that it holds.
pub proof fn law_if_stmt_says_all(x: IfStmt, i: int)
    ensures
        x.tree().first == x.first.tree(),
        x.tree().else_ifs.len() == x.else_ifs@.len(),
        0 <= i < x.else_ifs@.len() ==> x.tree().else_ifs[i] == x.else_ifs@[i].tree(),
        x.otherwise is None <==> x.tree().otherwise is None,
        x.otherwise matches Some(y) ==> x.tree().otherwise == Some(y.tree()),
{
}

/// The tree of a [`ElseBranch`] says all that it holds.
pub proof fn law_else_branch_says_all(x: ElseBranch, i: int)
    ensures
        x.tree().attributes.len() == x.attributes@.len(),
        0 <= i < x.attributes@.len() ==> x.tree().attributes[i] == x.attributes@[i].tree(),
        x.tree().body == x.body.tree(),
{
}

/// The tree of a [`SwitchStmt`] says all that it holds.
pub proof fn law_switch_stmt_says_all(x: SwitchStmt, i: int)
    ensures
        x.tree().attributes.len() == x.attributes@.len(),
        0 <= i < x.attributes@.len() ==> x.tree().attributes[i] == x.attributes@[i].tree(),
        x.tree().subject == x.subject.tree(),
        x.tree().body_attributes.len() == x.body_attributes@.len(),
        0 <= i < x.body_attributes@.len() ==> x.tree().body_attributes[i]
            == x.body_attributes@[i].tree(),
        x.tree().cases.len() == x.cases@.len(),
        0 <= i < x.cases@.len() ==> x.tree().cases[i] == x.cases@[i].tree(),
{
}

/// The tree of a [`SwitchCase`] says all that it holds.
pub proof fn law_switch_case_says_all(x: SwitchCase, i: int)
    ensures
        x.tree().attributes.len() == x.attributes@.len(),
        0 <= i < x.attributes@.len() ==> x.tree().attributes[i] == x.attributes@[i].tree(),
        x.tree().selectors.len() == x.selectors@.len(),
        0 <= i < x.selectors@.len() ==> x.tree().selectors[i] == x.selectors@[i].tree(),
        x.tree().body == x.body.tree(),
{
}

/// The tree of a [`LoopStmt`] says all that it holds.
pub proof fn law_loop_stmt_says_all(x: LoopStmt, i: int)
    ensures
        x.tree().attributes.len() == x.attributes@.len(),
        0 <= i < x.attributes@.len() ==> x.tree().attributes[i] == x.attributes@[i].tree(),
        x.tree().body == x.body.tree(),
        x.continuing is None <==> x.tree().continuing is None,
        x.continuing matches Some(y) ==> x.tree().continuing == Some(y.tree()),
{
}

/// The tree of a [`Continuing`] says all that it holds.
pub proof fn law_continuing_says_all(x: Continuing, i: int)
    ensures
        x.tree().attributes.len() == x.attributes@.len(),
        0 <= i < x.attributes@.len() ==> x.tree().attributes[i] == x.attributes@[i].tree(),
        x.tree().body == x.body.tree(),
        x.break_if is None <==> x.tree().break_if is None,
        x.break_if matches Some(y) ==> x.tree().break_if == Some(y.tree()),
{
}

/// The tree of a [`ForStmt`] says all that it holds.
pub proof fn law_for_stmt_says_all(x: ForStmt, i: int)
    ensures
        x.tree().attributes.len() == x.attributes@.len(),
        0 <= i < x.attributes@.len() ==> x.tree().attributes[i] == x.attributes@[i].tree(),
        x.initializer is None <==> x.tree().initializer is None,
        x.initializer matches Some(y) ==> x.tree().initializer == Some(Box::new(y.tree())),
        x.condition is None <==> x.tree().condition is None,
        x.condition matches Some(y) ==> x.tree().condition == Some(y.tree()),
        x.update is None <==> x.tree().update is None,
        x.update matches Some(y) ==> x.tree().update == Some(Box::new(y.tree())),
        x.tree().body == x.body.tree(),
{
}

/// The tree of a [`StructDecl`] says all that it holds.
pub proof fn law_struct_decl_says_all(x: StructDecl, i: int)
    ensures
        x.tree().attributes.len() == x.attributes@.len(),
        0 <= i < x.attributes@.len() ==> x.tree().attributes[i] == x.attributes@[i].tree(),
        x.tree().members.len() == x.members@.len(),
        0 <= i < x.members@.len() ==> x.tree().members[i] == x.members@[i].tree(),
{
}

/// The tree of a [`FunctionDecl`] says all that it holds.
pub proof fn law_function_decl_says_all(x: FunctionDecl, i: int)
    ensures
        x.tree().attributes.len() == x.attributes@.len(),
        0 <= i < x.attributes@.len() ==> x.tree().attributes[i] == x.attributes@[i].tree(),
        x.tree().parameters.len() == x.parameters@.len(),
        0 <= i < x.parameters@.len() ==> x.tree().parameters[i] == x.parameters@[i].tree(),
        x.tree().return_attributes.len() == x.return_attributes@.len(),
        0 <= i < x.return_attributes@.len() ==> x.tree().return_attributes[i]
            == x.return_attributes@[i].tree(),
        x.return_type is None <==> x.tree().return_type is None,
        x.return_type matches Some(y) ==> x.tree().return_type == Some(y.tree()),
        x.tree().body == x.body.tree(),
{
}

/// The tree of a [`ImportEntry`] says all that it holds.
pub proof fn law_import_entry_says_all(x: ImportEntry, i: int)
    ensures
        x.tree().names.len() == x.names@.len(),
        0 <= i < x.names@.len() ==> x.tree().names[i] == x.names@[i]@,
        x.tree().content == x.content.tree(),
{
}

/// The tree of a [`ImportStmt`] says all that it holds.
pub proof fn law_import_stmt_says_all(x: ImportStmt)
    ensures
        x.path is None <==> x.tree().path is None,
        x.path matches Some(y) ==> x.tree().path == Some(y@),
        x.tree().content == x.content.tree(),
{
}

/// The tree of a [`Unit`] says all that it holds.
pub proof fn law_unit_says_all(x: Unit, i: int)
    ensures
        x.tree().imports.len() == x.imports@.len(),
        0 <= i < x.imports@.len() ==> x.tree().imports[i] == x.imports@[i].tree(),
        x.tree().declarations.len() == x.declarations@.len(),
        0 <= i < x.declarations@.len() ==> x.tree().declarations[i] == x.declarations@[i].tree(),
{
}

/// The tree of an [`Expr`] says which one it is and all that it holds.
pub proof fn law_expr_says_all(x: Expr)
    ensures
        match x {
            Expr::Literal => x.tree() is Literal,
            Expr::Parenthesized(e) => x.tree() == ExprTree::Parenthesized(Box::new(e.tree())),
            Expr::NamedComponent(e) => x.tree() == ExprTree::NamedComponent(Box::new(e.tree())),
            Expr::Unary(e) => x.tree() == ExprTree::Unary(Box::new(e.tree())),
            Expr::Indexing(a, b) => x.tree()
                == ExprTree::Indexing(Box::new(a.tree()), Box::new(b.tree())),
            Expr::Binary(a, b) => x.tree()
                == ExprTree::Binary(Box::new(a.tree()), Box::new(b.tree())),
            Expr::Call(call) => x.tree() == ExprTree::Call(call.tree()),
            Expr::Type(ty) => x.tree() == ExprTree::Type(ty.tree()),
        },
{
}

/// The tree of an [`Action`] says which one it is and all that it holds.
pub proof fn law_action_says_all(x: Action)
    ensures
        match x {
            Action::Assignment(a, b) => x.tree() == ActionTree::Assignment(a.tree(), b.tree()),
            Action::Increment(e) => x.tree() == ActionTree::Increment(e.tree()),
            Action::Decrement(e) => x.tree() == ActionTree::Decrement(e.tree()),
            Action::Break => x.tree() is Break,
            Action::Continue => x.tree() is Continue,
            Action::Return(Some(e)) => x.tree() == ActionTree::Return(Some(e.tree())),
            Action::Return(None) => x.tree() == ActionTree::Return(None),
            Action::Discard => x.tree() is Discard,
            Action::Call(call) => x.tree() == ActionTree::Call(call.tree()),
        },
{
}

/// The tree of an [`Stmt`] says which one it is and all that it holds.
pub proof fn law_stmt_says_all(x: Stmt)
    ensures
        match x {
            Stmt::Void => x.tree() is Void,
            Stmt::Compound(s) => x.tree() == StmtTree::Compound(s.tree()),
            Stmt::If(s) => x.tree() == StmtTree::If(s.tree()),
            Stmt::Switch(s) => x.tree() == StmtTree::Switch(s.tree()),
            Stmt::Loop(s) => x.tree() == StmtTree::Loop(s.tree()),
            Stmt::For(s) => x.tree() == StmtTree::For(s.tree()),
            Stmt::While(s) => x.tree() == StmtTree::While(s.tree()),
            Stmt::Plain(s) => x.tree() == StmtTree::Plain(s.tree()),
            Stmt::ConstAssert(s) => x.tree() == StmtTree::ConstAssert(s.tree()),
            Stmt::Declaration(s) => x.tree() == StmtTree::Declaration(s.tree()),
        },
{
}

/// The tree of an [`Selector`] says which one it is and all that it holds.
pub proof fn law_selector_says_all(x: Selector)
    ensures
        match x {
            Selector::Default => x.tree() is Default,
            Selector::Value(e) => x.tree() == SelectorTree::Value(e.tree()),
        },
{
}

/// The tree of an [`GlobalDecl`] says which one it is and all that it holds.
pub proof fn law_global_decl_says_all(x: GlobalDecl)
    ensures
        match x {
            GlobalDecl::Void => x.tree() is Void,
            GlobalDecl::Declaration(d) => x.tree() == GlobalTree::Declaration(d.tree()),
            GlobalDecl::TypeAlias(d) => x.tree() == GlobalTree::TypeAlias(d.tree()),
            GlobalDecl::Struct(d) => x.tree() == GlobalTree::Struct(d.tree()),
            GlobalDecl::Function(d) => x.tree() == GlobalTree::Function(d.tree()),
            GlobalDecl::ConstAssert(d) => x.tree() == GlobalTree::ConstAssert(d.tree()),
        },
{
}

/// The tree of an [`Imported`] says which one it is and all that it holds.
pub proof fn law_imported_says_all(x: Imported, i: int)
    ensures
        match x {
            Imported::Item { name, alias: Some(other) } => x.tree()
                == (ImportedTree::Item { name: name@, alias: Some(other@) }),
            Imported::Item { name, alias: None } => x.tree()
                == (ImportedTree::Item { name: name@, alias: None }),
            Imported::List(list) => x.tree() matches ImportedTree::List(trees) && trees.len()
                == list@.len() && (0 <= i < list@.len() ==> trees[i] == list@[i].tree()),
        },
{
}

/// A path says where it starts and each of its names.
pub proof fn law_paths_say_all(x: WeslPath, i: int)
    ensures
        x@.components.len() == x.components@.len(),
        0 <= i < x.components@.len() ==> x@.components[i] == x.components@[i]@,
        match x.origin {
            WeslOrigin::Absolute => x@.origin is Absolute,
            WeslOrigin::Relative(n) => x@.origin == OriginView::Relative(n as nat),
            WeslOrigin::Package(name) => x@.origin == OriginView::Package(name@),
        },
{
}

/// A binding says both names and the module.
pub proof fn law_bindings_say_all(x: Binding)
    ensures
        x@.bound == x.bound@,
        x@.real == x.real@,
        x@.parent == x.parent@,
{
}

/// An import says of which kind it is, and its path.
pub proof fn law_imports_say_all(x: ShaderImport)
    ensures
        match x {
            ShaderImport::AssetPath(path) => x@ == ImportView::AssetPath(path@),
            ShaderImport::Custom(path) => x@ == ImportView::Custom(path@),
        },
{
}

/// A list says as many things as it has entries, in their order.
pub proof fn law_lists_say_all(
    imports: Seq<ShaderImport>,
    paths: Seq<WeslPath>,
    bindings: Seq<Binding>,
    shown: Seq<&WeslPath>,
    names: Seq<&String>,
    i: int,
)
    ensures
        import_views(imports).len() == imports.len(),
        0 <= i < imports.len() ==> import_views(imports)[i] == imports[i]@,
        path_views(paths).len() == paths.len(),
        0 <= i < paths.len() ==> path_views(paths)[i] == paths[i]@,
        binding_views(bindings).len() == bindings.len(),
        0 <= i < bindings.len() ==> binding_views(bindings)[i] == bindings[i]@,
        shown_paths(shown).len() == shown.len(),
        0 <= i < shown.len() ==> shown_paths(shown)[i] == shown[i]@,
        shown_names(names).len() == names.len(),
        0 <= i < names.len() ==> shown_names(names)[i] == names[i]@,
{
}

/// Each `Expression` of a list is read, in order.
pub proof fn law_wesl_expressions_are_all_read(list: Seq<&Expression>, i: int)
    ensures
        wesl_expressions(list).len() == list.len(),
        0 <= i < list.len() ==> wesl_expressions(list)[i] == wesl_expression(*list[i]),
{
}

/// Each `Statement` of a list is read, in order.
pub proof fn law_wesl_statements_are_all_read(list: Seq<&Statement>, i: int)
    ensures
        wesl_statements(list).len() == list.len(),
        0 <= i < list.len() ==> wesl_statements(list)[i] == wesl_statement(*list[i]),
{
}

/// Each `ElseIfClause` of a list is read, in order.
pub proof fn law_wesl_else_ifs_are_all_read(list: Seq<ElseIfClause>, i: int)
    ensures
        wesl_else_ifs(list).len() == list.len(),
        0 <= i < list.len() ==> wesl_else_ifs(list)[i] == wesl_else_if(list[i]),
{
}

/// Each `SwitchClause` of a list is read, in order.
pub proof fn law_wesl_clauses_are_all_read(list: Seq<SwitchClause>, i: int)
    ensures
        wesl_clauses(list).len() == list.len(),
        0 <= i < list.len() ==> wesl_clauses(list)[i] == wesl_clause(list[i]),
{
}

/// Each `CaseSelector` of a list is read, in order.
pub proof fn law_wesl_selectors_are_all_read(list: Seq<CaseSelector>, i: int)
    ensures
        wesl_selectors(list).len() == list.len(),
        0 <= i < list.len() ==> wesl_selectors(list)[i] == wesl_selector(list[i]),
{
}

/// Each `GlobalDeclaration` of a list is read, in order.
pub proof fn law_wesl_globals_are_all_read(list: Seq<&GlobalDeclaration>, i: int)
    ensures
        wesl_globals(list).len() == list.len(),
        0 <= i < list.len() ==> wesl_globals(list)[i] == wesl_global(*list[i]),
{
}

/// Each `Import` of a list is read, in order.
pub proof fn law_wesl_entries_are_all_read(list: Seq<Import>, i: int)
    ensures
        wesl_entries(list).len() == list.len(),
        0 <= i < list.len() ==> wesl_entries(list)[i] == wesl_entry(list[i]),
{
}

/// Each `ImportStatement` of a list is read, in order.
pub proof fn law_wesl_imports_are_all_read(list: Seq<ImportStatement>, i: int)
    ensures
        wesl_imports(list).len() == list.len(),
        0 <= i < list.len() ==> wesl_imports(list)[i] == wesl_import(list[i]),
{
}

/// Each `StructMember` of a list is read, in order.
pub proof fn law_wesl_members_are_all_read(list: Seq<&StructMember>, i: int)
    ensures
        wesl_members(list).len() == list.len(),
        0 <= i < list.len() ==> wesl_members(list)[i] == wesl_member(*list[i]),
{
}

/// Each `FormalParameter` of a list is read, in order.
pub proof fn law_wesl_parameters_are_all_read(list: Seq<FormalParameter>, i: int)
    ensures
        wesl_parameters(list).len() == list.len(),
        0 <= i < list.len() ==> wesl_parameters(list)[i] == wesl_parameter(list[i]),
{
}

/// The values of each attribute of a list are read, in order. A condition on features is no value.
pub proof fn law_attributes_are_all_read(a: Seq<&Attribute>, b: Seq<&Attribute>, one: &Attribute)
    ensures
        wesl_attributes(a + b) == wesl_attributes(a) + wesl_attributes(b),
        wesl_attributes(seq![one]) == match wesl_attribute(*one) {
            AttributeTree::Plain => Seq::empty(),
            AttributeTree::Value(e) => seq![e],
            AttributeTree::Size(list) => list,
            AttributeTree::Condition(_) => Seq::empty(),
            AttributeTree::Custom(list) => list,
        },
    decreases b.len(),
{
    assert(seq![one].drop_last() == Seq::<&Attribute>::empty());
    reveal_with_fuel(wesl_attributes, 2);
    if b.len() == 0 {
        assert(a + b == a);
    } else {
        law_attributes_are_all_read(a, b.drop_last(), one);
        assert((a + b).drop_last() == a + b.drop_last());
    }
}

/// What is optional is read where it is there.
pub proof fn law_optional_parts_are_read(expr: &Expression)
    ensures
        wesl_optional_expression(Some(expr)) == Some(wesl_expression(*expr)),
        wesl_optional_expression(None) is None,
        wesl_listed_expression(Some(expr)) == seq![wesl_expression(*expr)],
        wesl_listed_expression(None).len() == 0,
{
}

/// The tree of [`BranchParts`] says all of them.
pub proof fn law_branch_parts_say_all(x: BranchParts)
    ensures
        x.tree().attributes == wesl_attributes(x.attributes@),
        x.tree().condition == wesl_expression(*x.condition),
        x.tree().body == wesl_body(*x.body),
{
}

/// The tree of [`DeclarationParts`] says all of them.
pub proof fn law_declaration_parts_say_all(x: DeclarationParts)
    ensures
        x.tree().attributes == wesl_attributes(x.attributes@),
        x.tree().name == x.name@,
        x.ty is None <==> x.tree().ty is None,
        x.ty matches Some(y) ==> x.tree().ty == Some(wesl_type(*y)),
        x.initializer is None <==> x.tree().initializer is None,
        x.initializer matches Some(y) ==> x.tree().initializer == Some(wesl_expression(*y)),
{
}

/// The tree of [`IfParts`] says all of them.
pub proof fn law_if_parts_say_all(x: IfParts, i: int)
    ensures
        x.tree().first == x.first.tree(),
        x.tree().else_ifs.len() == x.else_ifs@.len(),
        0 <= i < x.else_ifs@.len() ==> x.tree().else_ifs[i] == wesl_else_if(x.else_ifs@[i]),
        x.otherwise is None <==> x.tree().otherwise is None,
        x.otherwise matches Some(y) ==> x.tree().otherwise == Some(wesl_else(*y)),
{
}

/// The tree of [`SwitchParts`] says all of them.
pub proof fn law_switch_parts_say_all(x: SwitchParts, i: int)
    ensures
        x.tree().attributes == wesl_attributes(x.attributes@),
        x.tree().subject == wesl_expression(*x.subject),
        x.tree().body_attributes == wesl_attributes(x.body_attributes@),
        x.tree().cases.len() == x.clauses@.len(),
        0 <= i < x.clauses@.len() ==> x.tree().cases[i] == wesl_clause(x.clauses@[i]),
{
}

/// The tree of [`ForParts`] says all of them.
pub proof fn law_for_parts_say_all(x: ForParts)
    ensures
        x.tree().attributes == wesl_attributes(x.attributes@),
        x.initializer is None <==> x.tree().initializer is None,
        x.initializer matches Some(y) ==> x.tree().initializer
            == Some(Box::new(wesl_statement(*y))),
        x.condition is None <==> x.tree().condition is None,
        x.condition matches Some(y) ==> x.tree().condition == Some(wesl_expression(*y)),
        x.update is None <==> x.tree().update is None,
        x.update matches Some(y) ==> x.tree().update == Some(Box::new(wesl_statement(*y))),
        x.tree().body == wesl_body(*x.body),
{
}

/// The tree of [`TypedParts`] says all of them.
pub proof fn law_typed_parts_say_all(x: TypedParts)
    ensures
        x.tree().attributes == wesl_attributes(x.attributes@),
        x.tree().name == x.name@,
        x.tree().ty == wesl_type(*x.ty),
{
}

/// The tree of [`FunctionParts`] says all of them.
pub proof fn law_function_parts_say_all(x: FunctionParts, i: int)
    ensures
        x.tree().attributes == wesl_attributes(x.attributes@),
        x.tree().parameters.len() == x.parameters@.len(),
        0 <= i < x.parameters@.len() ==> x.tree().parameters[i] == wesl_parameter(x.parameters@[i]),
        x.tree().return_attributes == wesl_attributes(x.return_attributes@),
        x.return_type is None <==> x.tree().return_type is None,
        x.return_type matches Some(y) ==> x.tree().return_type == Some(wesl_type(*y)),
        x.tree().body == wesl_body(*x.body),
{
}

/// The tree of [`TypeParts`] says all of them.
pub proof fn law_type_parts_say_all(x: TypeParts, i: int)
    ensures
        x.path is None <==> x.tree().path is None,
        x.path matches Some(p) ==> x.tree().path == Some(wesl_path(*p)),
        x.tree().name == x.name@,
        x.template_args is None <==> x.tree().template_args is None,
        x.template_args matches Some(list) ==> x.tree().template_args matches Some(trees)
            && trees.len() == list@.len() && (0 <= i < list@.len() ==> trees[i]
            == wesl_expression(*list@[i])),
{
}

/// The tree of [`ExpressionParts`] says all of them.
pub proof fn law_expression_parts_says_all(x: ExpressionParts)
    ensures
        match x {
            ExpressionParts::Literal => x.tree() is Literal,
            ExpressionParts::Parenthesized(e) => x.tree()
                == ExprTree::Parenthesized(Box::new(wesl_expression(*e))),
            ExpressionParts::NamedComponent(e) => x.tree()
                == ExprTree::NamedComponent(Box::new(wesl_expression(*e))),
            ExpressionParts::Unary(e) => x.tree() == ExprTree::Unary(Box::new(wesl_expression(*e))),
            ExpressionParts::Indexing(a, b) => x.tree()
                == ExprTree::Indexing(Box::new(wesl_expression(*a)), Box::new(wesl_expression(*b))),
            ExpressionParts::Binary(a, b) => x.tree()
                == ExprTree::Binary(Box::new(wesl_expression(*a)), Box::new(wesl_expression(*b))),
            ExpressionParts::Call(call) => x.tree() == ExprTree::Call(wesl_call(*call)),
            ExpressionParts::Type(ty) => x.tree() == ExprTree::Type(wesl_type(*ty)),
        },
{
}

/// The tree of [`AttributeParts`] says all of them.
pub proof fn law_attribute_parts_says_all(x: AttributeParts)
    ensures
        match x {
            AttributeParts::Plain => x.tree() is Plain,
            AttributeParts::Value(e) => x.tree() == AttributeTree::Value(wesl_expression(*e)),
            AttributeParts::Size(size) => x.tree()
                == AttributeTree::Size(wesl_workgroup_size(*size)),
            AttributeParts::Condition(e) => x.tree()
                == AttributeTree::Condition(wesl_expression(*e)),
            AttributeParts::Custom(custom) => x.tree()
                == AttributeTree::Custom(wesl_custom(*custom)),
        },
{
}

/// The tree of [`StatementParts`] says all of them.
pub proof fn law_statement_parts_says_all(x: StatementParts)
    ensures
        match x {
            StatementParts::Void => x.tree() is Void,
            StatementParts::Compound(s) => x.tree() == StmtTree::Compound(wesl_body(*s)),
            StatementParts::If(s) => x.tree() == StmtTree::If(wesl_if(*s)),
            StatementParts::Switch(s) => x.tree() == StmtTree::Switch(wesl_switch(*s)),
            StatementParts::Loop(s) => x.tree() == StmtTree::Loop(wesl_loop(*s)),
            StatementParts::For(s) => x.tree() == StmtTree::For(wesl_for(*s)),
            StatementParts::While(s) => x.tree() == StmtTree::While(wesl_while(*s)),
            StatementParts::ConstAssert(s) => x.tree()
                == StmtTree::ConstAssert(wesl_const_assert(*s)),
            StatementParts::Declaration(s) => x.tree()
                == StmtTree::Declaration(wesl_declaration(*s)),
        },
{
}

/// The tree of [`ActionParts`] says all of them.
pub proof fn law_action_parts_says_all(x: ActionParts)
    ensures
        match x {
            ActionParts::Assignment(a, b) => x.tree()
                == ActionTree::Assignment(wesl_expression(*a), wesl_expression(*b)),
            ActionParts::Increment(e) => x.tree() == ActionTree::Increment(wesl_expression(*e)),
            ActionParts::Decrement(e) => x.tree() == ActionTree::Decrement(wesl_expression(*e)),
            ActionParts::Break => x.tree() is Break,
            ActionParts::Continue => x.tree() is Continue,
            ActionParts::Return(Some(e)) => x.tree()
                == ActionTree::Return(Some(wesl_expression(*e))),
            ActionParts::Return(None) => x.tree() == ActionTree::Return(None),
            ActionParts::Discard => x.tree() is Discard,
            ActionParts::Call(call) => x.tree() == ActionTree::Call(wesl_call(*call)),
        },
{
}

/// The tree of [`GlobalParts`] says all of them.
pub proof fn law_global_parts_says_all(x: GlobalParts)
    ensures
        match x {
            GlobalParts::Void => x.tree() is Void,
            GlobalParts::Declaration(d) => x.tree()
                == GlobalTree::Declaration(wesl_declaration(*d)),
            GlobalParts::TypeAlias(d) => x.tree() == GlobalTree::TypeAlias(wesl_alias(*d)),
            GlobalParts::Struct(d) => x.tree() == GlobalTree::Struct(wesl_struct(*d)),
            GlobalParts::Function(d) => x.tree() == GlobalTree::Function(wesl_function(*d)),
            GlobalParts::ConstAssert(d) => x.tree()
                == GlobalTree::ConstAssert(wesl_const_assert(*d)),
        },
{
}

/// The tree of [`ContentParts`] says all of them.
pub proof fn law_content_parts_says_all(x: ContentParts, i: int)
    ensures
        match x {
            ContentParts::Item(name, Some(other)) => x.tree()
                == (ImportedTree::Item { name: name@, alias: Some(other@) }),
            ContentParts::Item(name, None) => x.tree()
                == (ImportedTree::Item { name: name@, alias: None }),
            ContentParts::List(list) => x.tree() matches ImportedTree::List(trees)
                && trees.len() == list@.len() && (0 <= i < list@.len() ==> trees[i]
                == wesl_entry(list@[i])),
        },
{
}

}
