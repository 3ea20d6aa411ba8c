//! What is in scope: which names a source uses bare depends on what is known where it uses them.

use vstd::prelude::*;

use crate::names::{
    branch_list_names, case_list_names, declared_names, expr_list_names, parameter_names,
    selector_list_names, stmt_list_names, typed_list_names,
};
use crate::syntax::{
    ActionTree, BlockTree, BranchTree, CallTree, CaseTree, ConditionTree, ContinuingTree, DeclTree,
    ElseTree, ExprTree, ForTree, FunctionTree, IfTree, LoopTree, PlainTree, SelectorTree, StmtTree,
    SwitchTree, TypeTree, TypedTree,
};

verus! {

/// A sum holds what one of its parts holds.
pub broadcast proof fn lemma_sum_contains<A>(a: Seq<A>, b: Seq<A>, x: A)
    ensures
        #[trigger] (a + b).contains(x) <==> a.contains(x) || b.contains(x),
{
    if a.contains(x) {
        let i = choose|i: int| 0 <= i < a.len() && a[i] == x;
        assert((a + b)[i] == x);
    }
    if b.contains(x) {
        let i = choose|i: int| 0 <= i < b.len() && b[i] == x;
        assert((a + b)[a.len() + i] == x);
    }
}

proof fn lemma_own_name(
    own: Seq<char>,
    outer: Seq<Seq<char>>,
    inner: Seq<Seq<char>>,
    name: Seq<char>,
)
    ensures
        (outer + inner).contains(own) <==> outer.contains(own) || inner.contains(own),
        seq![own].contains(name) <==> own == name,
{
    lemma_sum_contains(outer, inner, own);
    assert(seq![own][0] == own);
}

proof fn lemma_type_scope(
    tree: TypeTree,
    outer: Seq<Seq<char>>,
    inner: Seq<Seq<char>>,
    name: Seq<char>,
)
    ensures
        tree.bare_names(outer + inner).contains(name) <==> tree.bare_names(inner).contains(name)
            && !outer.contains(name),
    decreases tree,
{
    broadcast use lemma_sum_contains;

    lemma_own_name(tree.name, outer, inner, name);
    if let Some(args) = tree.template_args {
        lemma_exprs_scope(args, outer, inner, name);
    }
}

proof fn lemma_call_scope(
    tree: CallTree,
    outer: Seq<Seq<char>>,
    inner: Seq<Seq<char>>,
    name: Seq<char>,
)
    ensures
        tree.bare_names(outer + inner).contains(name) <==> tree.bare_names(inner).contains(name)
            && !outer.contains(name),
    decreases tree,
{
    broadcast use lemma_sum_contains;

    lemma_type_scope(tree.ty, outer, inner, name);
    lemma_exprs_scope(tree.arguments, outer, inner, name);
}

proof fn lemma_expr_scope(
    tree: ExprTree,
    outer: Seq<Seq<char>>,
    inner: Seq<Seq<char>>,
    name: Seq<char>,
)
    ensures
        tree.bare_names(outer + inner).contains(name) <==> tree.bare_names(inner).contains(name)
            && !outer.contains(name),
    decreases tree,
{
    broadcast use lemma_sum_contains;

    match tree {
        ExprTree::Literal => {},
        ExprTree::Parenthesized(e) => lemma_expr_scope(*e, outer, inner, name),
        ExprTree::NamedComponent(e) => lemma_expr_scope(*e, outer, inner, name),
        ExprTree::Unary(e) => lemma_expr_scope(*e, outer, inner, name),
        ExprTree::Indexing(a, b) => {
            lemma_expr_scope(*a, outer, inner, name);
            lemma_expr_scope(*b, outer, inner, name);
        },
        ExprTree::Binary(a, b) => {
            lemma_expr_scope(*a, outer, inner, name);
            lemma_expr_scope(*b, outer, inner, name);
        },
        ExprTree::Call(call) => lemma_call_scope(call, outer, inner, name),
        ExprTree::Type(ty) => lemma_type_scope(ty, outer, inner, name),
    }
}

pub proof fn lemma_exprs_scope(
    list: Seq<ExprTree>,
    outer: Seq<Seq<char>>,
    inner: Seq<Seq<char>>,
    name: Seq<char>,
)
    ensures
        expr_list_names(list, outer + inner).contains(name) <==> expr_list_names(
            list,
            inner,
        ).contains(name) && !outer.contains(name),
    decreases list,
{
    broadcast use lemma_sum_contains;

    if list.len() > 0 {
        lemma_exprs_scope(list.drop_last(), outer, inner, name);
        lemma_expr_scope(list.last(), outer, inner, name);
    }
}

proof fn lemma_decl_scope(
    tree: DeclTree,
    outer: Seq<Seq<char>>,
    inner: Seq<Seq<char>>,
    name: Seq<char>,
)
    ensures
        tree.bare_names(outer + inner).contains(name) <==> tree.bare_names(inner).contains(name)
            && !outer.contains(name),
{
    broadcast use lemma_sum_contains;

    lemma_exprs_scope(tree.attributes, outer, inner, name);
    if let Some(part) = tree.ty {
        lemma_type_scope(part, outer, inner, name);
    }
    if let Some(part) = tree.initializer {
        lemma_expr_scope(part, outer, inner, name);
    }
}

proof fn lemma_typed_scope(
    tree: TypedTree,
    outer: Seq<Seq<char>>,
    inner: Seq<Seq<char>>,
    name: Seq<char>,
)
    ensures
        tree.bare_names(outer + inner).contains(name) <==> tree.bare_names(inner).contains(name)
            && !outer.contains(name),
{
    broadcast use lemma_sum_contains;

    lemma_exprs_scope(tree.attributes, outer, inner, name);
    lemma_type_scope(tree.ty, outer, inner, name);
}

proof fn lemma_condition_scope(
    tree: ConditionTree,
    outer: Seq<Seq<char>>,
    inner: Seq<Seq<char>>,
    name: Seq<char>,
)
    ensures
        tree.bare_names(outer + inner).contains(name) <==> tree.bare_names(inner).contains(name)
            && !outer.contains(name),
{
    broadcast use lemma_sum_contains;

    lemma_exprs_scope(tree.attributes, outer, inner, name);
    lemma_expr_scope(tree.value, outer, inner, name);
}

proof fn lemma_plain_scope(
    tree: PlainTree,
    outer: Seq<Seq<char>>,
    inner: Seq<Seq<char>>,
    name: Seq<char>,
)
    ensures
        tree.bare_names(outer + inner).contains(name) <==> tree.bare_names(inner).contains(name)
            && !outer.contains(name),
{
    broadcast use lemma_sum_contains;

    lemma_exprs_scope(tree.attributes, outer, inner, name);
    match tree.action {
        ActionTree::Break | ActionTree::Continue | ActionTree::Discard => {},
        ActionTree::Assignment(lhs, rhs) => {
            lemma_expr_scope(lhs, outer, inner, name);
            lemma_expr_scope(rhs, outer, inner, name);
        },
        ActionTree::Increment(e) => lemma_expr_scope(e, outer, inner, name),
        ActionTree::Decrement(e) => lemma_expr_scope(e, outer, inner, name),
        ActionTree::Return(Some(e)) => lemma_expr_scope(e, outer, inner, name),
        ActionTree::Return(None) => {},
        ActionTree::Call(call) => lemma_call_scope(call, outer, inner, name),
    }
}

proof fn lemma_stmt_scope(
    tree: StmtTree,
    outer: Seq<Seq<char>>,
    inner: Seq<Seq<char>>,
    name: Seq<char>,
)
    ensures
        tree.bare_names(outer + inner).contains(name) <==> tree.bare_names(inner).contains(name)
            && !outer.contains(name),
    decreases tree,
{
    broadcast use lemma_sum_contains;

    match tree {
        StmtTree::Void => {},
        StmtTree::Compound(s) => lemma_block_scope(s, outer, inner, name),
        StmtTree::If(s) => lemma_if_scope(s, outer, inner, name),
        StmtTree::Switch(s) => lemma_switch_scope(s, outer, inner, name),
        StmtTree::Loop(s) => lemma_loop_scope(s, outer, inner, name),
        StmtTree::For(s) => lemma_for_scope(s, outer, inner, name),
        StmtTree::While(s) => lemma_branch_scope(s, outer, inner, name),
        StmtTree::Plain(s) => lemma_plain_scope(s, outer, inner, name),
        StmtTree::ConstAssert(s) => lemma_condition_scope(s, outer, inner, name),
        StmtTree::Declaration(s) => lemma_decl_scope(s, outer, inner, name),
    }
}

proof fn lemma_stmts_scope(
    list: Seq<StmtTree>,
    outer: Seq<Seq<char>>,
    inner: Seq<Seq<char>>,
    name: Seq<char>,
)
    ensures
        stmt_list_names(list, outer + inner).contains(name) <==> stmt_list_names(
            list,
            inner,
        ).contains(name) && !outer.contains(name),
    decreases list,
{
    broadcast use lemma_sum_contains;

    if list.len() > 0 {
        let known = declared_names(list.drop_last());
        lemma_stmts_scope(list.drop_last(), outer, inner, name);
        lemma_stmt_scope(list.last(), outer, inner + known, name);
        assert(outer + (inner + known) == outer + inner + known);
    }
}

proof fn lemma_block_scope(
    tree: BlockTree,
    outer: Seq<Seq<char>>,
    inner: Seq<Seq<char>>,
    name: Seq<char>,
)
    ensures
        tree.bare_names(outer + inner).contains(name) <==> tree.bare_names(inner).contains(name)
            && !outer.contains(name),
    decreases tree,
{
    broadcast use lemma_sum_contains;

    lemma_exprs_scope(tree.attributes, outer, inner, name);
    lemma_stmts_scope(tree.statements, outer, inner, name);
}

proof fn lemma_branch_scope(
    tree: BranchTree,
    outer: Seq<Seq<char>>,
    inner: Seq<Seq<char>>,
    name: Seq<char>,
)
    ensures
        tree.bare_names(outer + inner).contains(name) <==> tree.bare_names(inner).contains(name)
            && !outer.contains(name),
    decreases tree,
{
    broadcast use lemma_sum_contains;

    lemma_exprs_scope(tree.attributes, outer, inner, name);
    lemma_expr_scope(tree.condition, outer, inner, name);
    lemma_block_scope(tree.body, outer, inner, name);
}

proof fn lemma_if_scope(
    tree: IfTree,
    outer: Seq<Seq<char>>,
    inner: Seq<Seq<char>>,
    name: Seq<char>,
)
    ensures
        tree.bare_names(outer + inner).contains(name) <==> tree.bare_names(inner).contains(name)
            && !outer.contains(name),
    decreases tree,
{
    broadcast use lemma_sum_contains;

    lemma_branch_scope(tree.first, outer, inner, name);
    lemma_branches_scope(tree.else_ifs, outer, inner, name);
    if let Some(part) = tree.otherwise {
        lemma_else_scope(part, outer, inner, name);
    }
}

proof fn lemma_else_scope(
    tree: ElseTree,
    outer: Seq<Seq<char>>,
    inner: Seq<Seq<char>>,
    name: Seq<char>,
)
    ensures
        tree.bare_names(outer + inner).contains(name) <==> tree.bare_names(inner).contains(name)
            && !outer.contains(name),
    decreases tree,
{
    broadcast use lemma_sum_contains;

    lemma_exprs_scope(tree.attributes, outer, inner, name);
    lemma_block_scope(tree.body, outer, inner, name);
}

proof fn lemma_switch_scope(
    tree: SwitchTree,
    outer: Seq<Seq<char>>,
    inner: Seq<Seq<char>>,
    name: Seq<char>,
)
    ensures
        tree.bare_names(outer + inner).contains(name) <==> tree.bare_names(inner).contains(name)
            && !outer.contains(name),
    decreases tree,
{
    broadcast use lemma_sum_contains;

    lemma_exprs_scope(tree.attributes, outer, inner, name);
    lemma_expr_scope(tree.subject, outer, inner, name);
    lemma_exprs_scope(tree.body_attributes, outer, inner, name);
    lemma_cases_scope(tree.cases, outer, inner, name);
}

proof fn lemma_case_scope(
    tree: CaseTree,
    outer: Seq<Seq<char>>,
    inner: Seq<Seq<char>>,
    name: Seq<char>,
)
    ensures
        tree.bare_names(outer + inner).contains(name) <==> tree.bare_names(inner).contains(name)
            && !outer.contains(name),
    decreases tree,
{
    broadcast use lemma_sum_contains;

    lemma_exprs_scope(tree.attributes, outer, inner, name);
    lemma_selectors_scope(tree.selectors, outer, inner, name);
    lemma_block_scope(tree.body, outer, inner, name);
}

proof fn lemma_selector_scope(
    tree: SelectorTree,
    outer: Seq<Seq<char>>,
    inner: Seq<Seq<char>>,
    name: Seq<char>,
)
    ensures
        tree.bare_names(outer + inner).contains(name) <==> tree.bare_names(inner).contains(name)
            && !outer.contains(name),
{
    broadcast use lemma_sum_contains;

    if let SelectorTree::Value(e) = tree {
        lemma_expr_scope(e, outer, inner, name);
    }
}

proof fn lemma_loop_scope(
    tree: LoopTree,
    outer: Seq<Seq<char>>,
    inner: Seq<Seq<char>>,
    name: Seq<char>,
)
    ensures
        tree.bare_names(outer + inner).contains(name) <==> tree.bare_names(inner).contains(name)
            && !outer.contains(name),
    decreases tree,
{
    broadcast use lemma_sum_contains;

    lemma_exprs_scope(tree.attributes, outer, inner, name);
    lemma_block_scope(tree.body, outer, inner, name);
    if let Some(part) = tree.continuing {
        let known = declared_names(tree.body.statements);
        lemma_continuing_scope(part, outer, inner + known, name);
        assert(outer + (inner + known) == outer + inner + known);
    }
}

proof fn lemma_continuing_scope(
    tree: ContinuingTree,
    outer: Seq<Seq<char>>,
    inner: Seq<Seq<char>>,
    name: Seq<char>,
)
    ensures
        tree.bare_names(outer + inner).contains(name) <==> tree.bare_names(inner).contains(name)
            && !outer.contains(name),
    decreases tree,
{
    broadcast use lemma_sum_contains;

    lemma_exprs_scope(tree.attributes, outer, inner, name);
    lemma_block_scope(tree.body, outer, inner, name);
    if let Some(part) = tree.break_if {
        let known = declared_names(tree.body.statements);
        lemma_condition_scope(part, outer, inner + known, name);
        assert(outer + (inner + known) == outer + inner + known);
    }
}

proof fn lemma_for_scope(
    tree: ForTree,
    outer: Seq<Seq<char>>,
    inner: Seq<Seq<char>>,
    name: Seq<char>,
)
    ensures
        tree.bare_names(outer + inner).contains(name) <==> tree.bare_names(inner).contains(name)
            && !outer.contains(name),
    decreases tree,
{
    broadcast use lemma_sum_contains;

    lemma_exprs_scope(tree.attributes, outer, inner, name);
    let known = match tree.initializer {
        Some(s) => s.declared(),
        None => Seq::empty(),
    };
    let within = inner + known;
    assert(outer + within == outer + inner + known);
    if let Some(s) = tree.initializer {
        lemma_stmt_scope(*s, outer, inner, name);
    } else {
        assert(within == inner);
    }
    if let Some(e) = tree.condition {
        lemma_expr_scope(e, outer, within, name);
    }
    if let Some(s) = tree.update {
        lemma_stmt_scope(*s, outer, within, name);
    }
    lemma_block_scope(tree.body, outer, within, name);
}

proof fn lemma_branches_scope(
    list: Seq<BranchTree>,
    outer: Seq<Seq<char>>,
    inner: Seq<Seq<char>>,
    name: Seq<char>,
)
    ensures
        branch_list_names(list, outer + inner).contains(name) <==> branch_list_names(
            list,
            inner,
        ).contains(name) && !outer.contains(name),
    decreases list,
{
    broadcast use lemma_sum_contains;

    if list.len() > 0 {
        lemma_branches_scope(list.drop_last(), outer, inner, name);
        lemma_branch_scope(list.last(), outer, inner, name);
    }
}

proof fn lemma_cases_scope(
    list: Seq<CaseTree>,
    outer: Seq<Seq<char>>,
    inner: Seq<Seq<char>>,
    name: Seq<char>,
)
    ensures
        case_list_names(list, outer + inner).contains(name) <==> case_list_names(
            list,
            inner,
        ).contains(name) && !outer.contains(name),
    decreases list,
{
    broadcast use lemma_sum_contains;

    if list.len() > 0 {
        lemma_cases_scope(list.drop_last(), outer, inner, name);
        lemma_case_scope(list.last(), outer, inner, name);
    }
}

proof fn lemma_selectors_scope(
    list: Seq<SelectorTree>,
    outer: Seq<Seq<char>>,
    inner: Seq<Seq<char>>,
    name: Seq<char>,
)
    ensures
        selector_list_names(list, outer + inner).contains(name) <==> selector_list_names(
            list,
            inner,
        ).contains(name) && !outer.contains(name),
    decreases list,
{
    broadcast use lemma_sum_contains;

    if list.len() > 0 {
        lemma_selectors_scope(list.drop_last(), outer, inner, name);
        lemma_selector_scope(list.last(), outer, inner, name);
    }
}

proof fn lemma_typed_names_scope(
    list: Seq<TypedTree>,
    outer: Seq<Seq<char>>,
    inner: Seq<Seq<char>>,
    name: Seq<char>,
)
    ensures
        typed_list_names(list, outer + inner).contains(name) <==> typed_list_names(
            list,
            inner,
        ).contains(name) && !outer.contains(name),
    decreases list,
{
    broadcast use lemma_sum_contains;

    if list.len() > 0 {
        lemma_typed_names_scope(list.drop_last(), outer, inner, name);
        lemma_typed_scope(list.last(), outer, inner, name);
    }
}

/// A name that is known around a statement is not used bare in it, however deep, and which other
/// names are does not depend on it.
pub proof fn law_known_names_are_not_bare_in_statements(
    tree: StmtTree,
    outer: Seq<Seq<char>>,
    inner: Seq<Seq<char>>,
    name: Seq<char>,
)
    ensures
        tree.bare_names(outer + inner).contains(name) <==> tree.bare_names(inner).contains(name)
            && !outer.contains(name),
        outer.contains(name) ==> !tree.bare_names(outer).contains(name),
{
    lemma_stmt_scope(tree, outer, inner, name);
    lemma_stmt_scope(tree, outer, Seq::empty(), name);
    assert(outer + Seq::<Seq<char>>::empty() == outer);
}

/// A name that is known around an expression is not used bare in it, however deep, and which other
/// names are does not depend on it.
pub proof fn law_known_names_are_not_bare_in_expressions(
    tree: ExprTree,
    outer: Seq<Seq<char>>,
    inner: Seq<Seq<char>>,
    name: Seq<char>,
)
    ensures
        tree.bare_names(outer + inner).contains(name) <==> tree.bare_names(inner).contains(name)
            && !outer.contains(name),
        outer.contains(name) ==> !tree.bare_names(outer).contains(name),
{
    lemma_expr_scope(tree, outer, inner, name);
    lemma_expr_scope(tree, outer, Seq::empty(), name);
    assert(outer + Seq::<Seq<char>>::empty() == outer);
}

/// A parameter is not used bare in the body of its function, and no name is used bare behind its
/// declaration in the same block.
pub proof fn law_declared_names_are_not_bare(
    function: FunctionTree,
    i: int,
    before: Seq<StmtTree>,
    decl: DeclTree,
    after: Seq<StmtTree>,
    scope: Seq<Seq<char>>,
)
    ensures
        0 <= i < function.parameters.len() ==> !stmt_list_names(
            function.body.statements,
            parameter_names(function.parameters),
        ).contains(function.parameters[i].name),
        ({
            let front = before + seq![StmtTree::Declaration(decl)];
            let known = scope + declared_names(front);
            &&& stmt_list_names(front + after, scope) == stmt_list_names(front, scope)
                + stmt_list_names(after, known)
            &&& !stmt_list_names(after, known).contains(decl.name)
        }),
{
    let names = parameter_names(function.parameters);
    if 0 <= i < function.parameters.len() {
        let name = function.parameters[i].name;
        assert(names[i] == name);
        lemma_stmts_scope(function.body.statements, names, Seq::empty(), name);
        assert(names + Seq::<Seq<char>>::empty() == names);
    }
    let one = StmtTree::Declaration(decl);
    let front = before + seq![one];
    let known = scope + declared_names(front);
    crate::parts::law_stmt_lists_are_read_in_order(front, after, one, scope);
    crate::parts::law_stmt_lists_are_read_in_order(before, seq![one], one, scope);
    assert(seq![decl.name][0] == decl.name);
    lemma_sum_contains(declared_names(before), seq![decl.name], decl.name);
    lemma_sum_contains(scope, declared_names(front), decl.name);
    lemma_stmts_scope(after, known, Seq::empty(), decl.name);
    assert(known + Seq::<Seq<char>>::empty() == known);
}

}
