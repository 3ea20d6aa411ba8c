//! In which order the parts of a source are read, and what each part knows.
//!
//! Each law says which simpler source a part reads as: a loop as a block, an `else if` as an `if`
//! in an `else`, an expression as the list of its operands.

use vstd::prelude::*;

use crate::names::{
    branch_list_names, case_list_names, declared_names, expr_list_names, global_list_names,
    parameter_names, selector_list_names, stmt_list_names, typed_list_names,
};
use crate::path::PathView;
use crate::syntax::{
    ActionTree, BlockTree, BranchTree, CallTree, CaseTree, ConditionTree, ContinuingTree, DeclTree,
    ElseTree, ExprTree, ForTree, FunctionTree, GlobalTree, IfTree, ImportTree, LoopTree, PlainTree,
    SelectorTree, StmtTree, StructTree, SwitchTree, TypeTree, TypedTree, UnitTree,
};
use crate::usage::{
    branch_list_paths, case_list_paths, expr_list_paths, global_list_paths, selector_list_paths,
    stmt_list_paths, typed_list_paths,
};

verus! {

broadcast proof fn lemma_expr_paths_sum(a: Seq<ExprTree>, b: Seq<ExprTree>)
    ensures
        #[trigger] expr_list_paths(a + b) == expr_list_paths(a) + expr_list_paths(b),
    decreases b.len(),
{
    if b.len() == 0 {
        assert(a + b == a);
    } else {
        lemma_expr_paths_sum(a, b.drop_last());
        assert((a + b).drop_last() == a + b.drop_last());
    }
}

broadcast proof fn lemma_expr_paths_one(x: ExprTree)
    ensures
        #[trigger] expr_list_paths(seq![x]) == x.paths(),
{
    assert(seq![x].drop_last() == Seq::<ExprTree>::empty());
    reveal_with_fuel(expr_list_paths, 2);
}

broadcast proof fn lemma_expr_names_sum(a: Seq<ExprTree>, b: Seq<ExprTree>, scope: Seq<Seq<char>>)
    ensures
        #[trigger] expr_list_names(a + b, scope) == expr_list_names(a, scope) + expr_list_names(
            b,
            scope,
        ),
    decreases b.len(),
{
    if b.len() == 0 {
        assert(a + b == a);
    } else {
        lemma_expr_names_sum(a, b.drop_last(), scope);
        assert((a + b).drop_last() == a + b.drop_last());
    }
}

broadcast proof fn lemma_expr_names_one(x: ExprTree, scope: Seq<Seq<char>>)
    ensures
        #[trigger] expr_list_names(seq![x], scope) == x.bare_names(scope),
{
    assert(seq![x].drop_last() == Seq::<ExprTree>::empty());
    reveal_with_fuel(expr_list_names, 2);
}

broadcast proof fn lemma_branch_paths_sum(a: Seq<BranchTree>, b: Seq<BranchTree>)
    ensures
        #[trigger] branch_list_paths(a + b) == branch_list_paths(a) + branch_list_paths(b),
    decreases b.len(),
{
    if b.len() == 0 {
        assert(a + b == a);
    } else {
        lemma_branch_paths_sum(a, b.drop_last());
        assert((a + b).drop_last() == a + b.drop_last());
    }
}

broadcast proof fn lemma_branch_paths_one(x: BranchTree)
    ensures
        #[trigger] branch_list_paths(seq![x]) == x.paths(),
{
    assert(seq![x].drop_last() == Seq::<BranchTree>::empty());
    reveal_with_fuel(branch_list_paths, 2);
}

broadcast proof fn lemma_branch_names_sum(
    a: Seq<BranchTree>,
    b: Seq<BranchTree>,
    scope: Seq<Seq<char>>,
)
    ensures
        #[trigger] branch_list_names(a + b, scope)
            == branch_list_names(a, scope) + branch_list_names(
            b,
            scope,
        ),
    decreases b.len(),
{
    if b.len() == 0 {
        assert(a + b == a);
    } else {
        lemma_branch_names_sum(a, b.drop_last(), scope);
        assert((a + b).drop_last() == a + b.drop_last());
    }
}

broadcast proof fn lemma_branch_names_one(x: BranchTree, scope: Seq<Seq<char>>)
    ensures
        #[trigger] branch_list_names(seq![x], scope) == x.bare_names(scope),
{
    assert(seq![x].drop_last() == Seq::<BranchTree>::empty());
    reveal_with_fuel(branch_list_names, 2);
}

broadcast proof fn lemma_case_paths_sum(a: Seq<CaseTree>, b: Seq<CaseTree>)
    ensures
        #[trigger] case_list_paths(a + b) == case_list_paths(a) + case_list_paths(b),
    decreases b.len(),
{
    if b.len() == 0 {
        assert(a + b == a);
    } else {
        lemma_case_paths_sum(a, b.drop_last());
        assert((a + b).drop_last() == a + b.drop_last());
    }
}

broadcast proof fn lemma_case_paths_one(x: CaseTree)
    ensures
        #[trigger] case_list_paths(seq![x]) == x.paths(),
{
    assert(seq![x].drop_last() == Seq::<CaseTree>::empty());
    reveal_with_fuel(case_list_paths, 2);
}

broadcast proof fn lemma_case_names_sum(a: Seq<CaseTree>, b: Seq<CaseTree>, scope: Seq<Seq<char>>)
    ensures
        #[trigger] case_list_names(a + b, scope) == case_list_names(a, scope) + case_list_names(
            b,
            scope,
        ),
    decreases b.len(),
{
    if b.len() == 0 {
        assert(a + b == a);
    } else {
        lemma_case_names_sum(a, b.drop_last(), scope);
        assert((a + b).drop_last() == a + b.drop_last());
    }
}

broadcast proof fn lemma_case_names_one(x: CaseTree, scope: Seq<Seq<char>>)
    ensures
        #[trigger] case_list_names(seq![x], scope) == x.bare_names(scope),
{
    assert(seq![x].drop_last() == Seq::<CaseTree>::empty());
    reveal_with_fuel(case_list_names, 2);
}

broadcast proof fn lemma_selector_paths_sum(a: Seq<SelectorTree>, b: Seq<SelectorTree>)
    ensures
        #[trigger] selector_list_paths(a + b) == selector_list_paths(a) + selector_list_paths(b),
    decreases b.len(),
{
    if b.len() == 0 {
        assert(a + b == a);
    } else {
        lemma_selector_paths_sum(a, b.drop_last());
        assert((a + b).drop_last() == a + b.drop_last());
    }
}

broadcast proof fn lemma_selector_paths_one(x: SelectorTree)
    ensures
        #[trigger] selector_list_paths(seq![x]) == x.paths(),
{
    assert(seq![x].drop_last() == Seq::<SelectorTree>::empty());
    reveal_with_fuel(selector_list_paths, 2);
}

broadcast proof fn lemma_selector_names_sum(
    a: Seq<SelectorTree>,
    b: Seq<SelectorTree>,
    scope: Seq<Seq<char>>,
)
    ensures
        #[trigger] selector_list_names(a + b, scope)
            == selector_list_names(a, scope) + selector_list_names(
            b,
            scope,
        ),
    decreases b.len(),
{
    if b.len() == 0 {
        assert(a + b == a);
    } else {
        lemma_selector_names_sum(a, b.drop_last(), scope);
        assert((a + b).drop_last() == a + b.drop_last());
    }
}

broadcast proof fn lemma_selector_names_one(x: SelectorTree, scope: Seq<Seq<char>>)
    ensures
        #[trigger] selector_list_names(seq![x], scope) == x.bare_names(scope),
{
    assert(seq![x].drop_last() == Seq::<SelectorTree>::empty());
    reveal_with_fuel(selector_list_names, 2);
}

broadcast proof fn lemma_typed_paths_sum(a: Seq<TypedTree>, b: Seq<TypedTree>)
    ensures
        #[trigger] typed_list_paths(a + b) == typed_list_paths(a) + typed_list_paths(b),
    decreases b.len(),
{
    if b.len() == 0 {
        assert(a + b == a);
    } else {
        lemma_typed_paths_sum(a, b.drop_last());
        assert((a + b).drop_last() == a + b.drop_last());
    }
}

broadcast proof fn lemma_typed_paths_one(x: TypedTree)
    ensures
        #[trigger] typed_list_paths(seq![x]) == x.paths(),
{
    assert(seq![x].drop_last() == Seq::<TypedTree>::empty());
    reveal_with_fuel(typed_list_paths, 2);
}

broadcast proof fn lemma_typed_names_sum(
    a: Seq<TypedTree>,
    b: Seq<TypedTree>,
    scope: Seq<Seq<char>>,
)
    ensures
        #[trigger] typed_list_names(a + b, scope) == typed_list_names(a, scope) + typed_list_names(
            b,
            scope,
        ),
    decreases b.len(),
{
    if b.len() == 0 {
        assert(a + b == a);
    } else {
        lemma_typed_names_sum(a, b.drop_last(), scope);
        assert((a + b).drop_last() == a + b.drop_last());
    }
}

broadcast proof fn lemma_typed_names_one(x: TypedTree, scope: Seq<Seq<char>>)
    ensures
        #[trigger] typed_list_names(seq![x], scope) == x.bare_names(scope),
{
    assert(seq![x].drop_last() == Seq::<TypedTree>::empty());
    reveal_with_fuel(typed_list_names, 2);
}

broadcast proof fn lemma_stmt_paths_sum(a: Seq<StmtTree>, b: Seq<StmtTree>)
    ensures
        #[trigger] stmt_list_paths(a + b) == stmt_list_paths(a) + stmt_list_paths(b),
    decreases b.len(),
{
    if b.len() == 0 {
        assert(a + b == a);
    } else {
        lemma_stmt_paths_sum(a, b.drop_last());
        assert((a + b).drop_last() == a + b.drop_last());
    }
}

broadcast proof fn lemma_stmt_paths_one(x: StmtTree)
    ensures
        #[trigger] stmt_list_paths(seq![x]) == x.paths(),
{
    assert(seq![x].drop_last() == Seq::<StmtTree>::empty());
    reveal_with_fuel(stmt_list_paths, 2);
}

broadcast proof fn lemma_declared_sum(a: Seq<StmtTree>, b: Seq<StmtTree>)
    ensures
        #[trigger] declared_names(a + b) == declared_names(a) + declared_names(b),
    decreases b.len(),
{
    if b.len() == 0 {
        assert(a + b == a);
    } else {
        lemma_declared_sum(a, b.drop_last());
        assert((a + b).drop_last() == a + b.drop_last());
    }
}

broadcast proof fn lemma_declared_one(x: StmtTree)
    ensures
        #[trigger] declared_names(seq![x]) == x.declared(),
{
    assert(seq![x].drop_last() == Seq::<StmtTree>::empty());
    reveal_with_fuel(declared_names, 2);
}

broadcast proof fn lemma_stmt_names_sum(a: Seq<StmtTree>, b: Seq<StmtTree>, scope: Seq<Seq<char>>)
    ensures
        #[trigger] stmt_list_names(a + b, scope) == stmt_list_names(a, scope) + stmt_list_names(
            b,
            scope + declared_names(a),
        ),
    decreases b.len(),
{
    if b.len() == 0 {
        assert(a + b == a);
    } else {
        lemma_stmt_names_sum(a, b.drop_last(), scope);
        lemma_declared_sum(a, b.drop_last());
        assert((a + b).drop_last() == a + b.drop_last());
        assert(scope + (declared_names(a) + declared_names(b.drop_last())) == scope
            + declared_names(a) + declared_names(b.drop_last()));
    }
}

broadcast proof fn lemma_stmt_names_one(x: StmtTree, scope: Seq<Seq<char>>)
    ensures
        #[trigger] stmt_list_names(seq![x], scope) == x.bare_names(scope),
{
    assert(seq![x].drop_last() == Seq::<StmtTree>::empty());
    reveal_with_fuel(stmt_list_names, 2);
    assert(scope + declared_names(Seq::<StmtTree>::empty()) == scope);
}

broadcast proof fn lemma_global_paths_sum(a: Seq<GlobalTree>, b: Seq<GlobalTree>)
    ensures
        #[trigger] global_list_paths(a + b) == global_list_paths(a) + global_list_paths(b),
    decreases b.len(),
{
    if b.len() == 0 {
        assert(a + b == a);
    } else {
        lemma_global_paths_sum(a, b.drop_last());
        assert((a + b).drop_last() == a + b.drop_last());
    }
}

broadcast proof fn lemma_global_paths_one(x: GlobalTree)
    ensures
        #[trigger] global_list_paths(seq![x]) == x.paths(),
{
    assert(seq![x].drop_last() == Seq::<GlobalTree>::empty());
    reveal_with_fuel(global_list_paths, 2);
}

broadcast proof fn lemma_global_names_sum(a: Seq<GlobalTree>, b: Seq<GlobalTree>)
    ensures
        #[trigger] global_list_names(a + b) == global_list_names(a) + global_list_names(b),
    decreases b.len(),
{
    if b.len() == 0 {
        assert(a + b == a);
    } else {
        lemma_global_names_sum(a, b.drop_last());
        assert((a + b).drop_last() == a + b.drop_last());
    }
}

broadcast proof fn lemma_global_names_one(x: GlobalTree)
    ensures
        #[trigger] global_list_names(seq![x]) == x.bare_names(),
{
    assert(seq![x].drop_last() == Seq::<GlobalTree>::empty());
    reveal_with_fuel(global_list_names, 2);
}

broadcast proof fn lemma_block_paths_are(tree: BlockTree)
    ensures
        #[trigger] tree.paths()
            == expr_list_paths(tree.attributes) + stmt_list_paths(tree.statements),
{
}

broadcast proof fn lemma_block_names_are(tree: BlockTree, scope: Seq<Seq<char>>)
    ensures
        #[trigger] tree.bare_names(scope)
            == expr_list_names(tree.attributes, scope) + stmt_list_names(
            tree.statements,
            scope,
        ),
{
}

broadcast proof fn lemma_branch_paths_are(tree: BranchTree)
    ensures
        #[trigger] tree.paths() == expr_list_paths(tree.attributes) + tree.condition.paths()
            + tree.body.paths(),
{
}

broadcast proof fn lemma_branch_names_are(tree: BranchTree, scope: Seq<Seq<char>>)
    ensures
        #[trigger] tree.bare_names(scope) == expr_list_names(tree.attributes, scope)
            + tree.condition.bare_names(scope) + tree.body.bare_names(scope),
{
}

broadcast proof fn lemma_else_paths_are(tree: ElseTree)
    ensures
        #[trigger] tree.paths() == expr_list_paths(tree.attributes) + tree.body.paths(),
{
}

broadcast proof fn lemma_else_names_are(tree: ElseTree, scope: Seq<Seq<char>>)
    ensures
        #[trigger] tree.bare_names(scope) == expr_list_names(tree.attributes, scope)
            + tree.body.bare_names(scope),
{
}

broadcast proof fn lemma_if_paths_are(tree: IfTree)
    ensures
        #[trigger] tree.paths() == match tree.otherwise {
            Some(branch) => tree.first.paths() + branch_list_paths(tree.else_ifs) + branch.paths(),
            None => tree.first.paths() + branch_list_paths(tree.else_ifs),
        },
{
}

broadcast proof fn lemma_if_names_are(tree: IfTree, scope: Seq<Seq<char>>)
    ensures
        #[trigger] tree.bare_names(scope) == match tree.otherwise {
            Some(branch) => tree.first.bare_names(scope) + branch_list_names(tree.else_ifs, scope)
                + branch.bare_names(scope),
            None => tree.first.bare_names(scope) + branch_list_names(tree.else_ifs, scope),
        },
{
}

broadcast proof fn lemma_continuing_paths_are(tree: ContinuingTree)
    ensures
        #[trigger] tree.paths() == match tree.break_if {
            Some(condition) => expr_list_paths(tree.attributes) + tree.body.paths()
                + condition.paths(),
            None => expr_list_paths(tree.attributes) + tree.body.paths(),
        },
{
}

broadcast proof fn lemma_continuing_names_are(tree: ContinuingTree, scope: Seq<Seq<char>>)
    ensures
        #[trigger] tree.bare_names(scope) == match tree.break_if {
            Some(condition) => expr_list_names(tree.attributes, scope) + tree.body.bare_names(scope)
                + condition.bare_names(scope + declared_names(tree.body.statements)),
            None => expr_list_names(tree.attributes, scope) + tree.body.bare_names(scope),
        },
{
}

broadcast proof fn lemma_stmt_paths_are(tree: StmtTree)
    ensures
        #[trigger] tree.paths() == match tree {
            StmtTree::Void => Seq::empty(),
            StmtTree::Compound(s) => s.paths(),
            StmtTree::If(s) => s.paths(),
            StmtTree::Switch(s) => s.paths(),
            StmtTree::Loop(s) => s.paths(),
            StmtTree::For(s) => s.paths(),
            StmtTree::While(s) => s.paths(),
            StmtTree::Plain(s) => s.paths(),
            StmtTree::ConstAssert(s) => s.paths(),
            StmtTree::Declaration(s) => s.paths(),
        },
{
}

broadcast proof fn lemma_stmt_names_are(tree: StmtTree, scope: Seq<Seq<char>>)
    ensures
        #[trigger] tree.bare_names(scope) == match tree {
            StmtTree::Void => Seq::empty(),
            StmtTree::Compound(s) => s.bare_names(scope),
            StmtTree::If(s) => s.bare_names(scope),
            StmtTree::Switch(s) => s.bare_names(scope),
            StmtTree::Loop(s) => s.bare_names(scope),
            StmtTree::For(s) => s.bare_names(scope),
            StmtTree::While(s) => s.bare_names(scope),
            StmtTree::Plain(s) => s.bare_names(scope),
            StmtTree::ConstAssert(s) => s.bare_names(scope),
            StmtTree::Declaration(s) => s.bare_names(scope),
        },
{
}

broadcast group group_lists {
    lemma_expr_paths_sum,
    lemma_expr_paths_one,
    lemma_expr_names_sum,
    lemma_expr_names_one,
    lemma_branch_paths_sum,
    lemma_branch_paths_one,
    lemma_branch_names_sum,
    lemma_branch_names_one,
    lemma_case_paths_sum,
    lemma_case_paths_one,
    lemma_case_names_sum,
    lemma_case_names_one,
    lemma_selector_paths_sum,
    lemma_selector_paths_one,
    lemma_selector_names_sum,
    lemma_selector_names_one,
    lemma_typed_paths_sum,
    lemma_typed_paths_one,
    lemma_typed_names_sum,
    lemma_typed_names_one,
    lemma_stmt_paths_sum,
    lemma_stmt_paths_one,
    lemma_stmt_names_sum,
    lemma_stmt_names_one,
    lemma_global_paths_sum,
    lemma_global_paths_one,
    lemma_global_names_sum,
    lemma_global_names_one,
    lemma_declared_sum,
    lemma_declared_one,
    lemma_block_paths_are,
    lemma_block_names_are,
    lemma_branch_paths_are,
    lemma_branch_names_are,
    lemma_else_paths_are,
    lemma_else_names_are,
    lemma_if_paths_are,
    lemma_if_names_are,
    lemma_continuing_paths_are,
    lemma_continuing_names_are,
    lemma_stmt_paths_are,
    lemma_stmt_names_are,
}

/// A list of expressions is read from front to back, and each of them in full.
pub proof fn law_expr_lists_are_read_in_order(
    a: Seq<ExprTree>,
    b: Seq<ExprTree>,
    x: ExprTree,
    scope: Seq<Seq<char>>,
)
    ensures
        expr_list_paths(a + b) == expr_list_paths(a) + expr_list_paths(b),
        expr_list_paths(seq![x]) == x.paths(),
        expr_list_names(a + b, scope) == expr_list_names(a, scope) + expr_list_names(b, scope),
        expr_list_names(seq![x], scope) == x.bare_names(scope),
{
    lemma_expr_paths_sum(a, b);
    lemma_expr_paths_one(x);
    lemma_expr_names_sum(a, b, scope);
    lemma_expr_names_one(x, scope);
}

/// A list of branches is read from front to back, and each of them in full.
pub proof fn law_branch_lists_are_read_in_order(
    a: Seq<BranchTree>,
    b: Seq<BranchTree>,
    x: BranchTree,
    scope: Seq<Seq<char>>,
)
    ensures
        branch_list_paths(a + b) == branch_list_paths(a) + branch_list_paths(b),
        branch_list_paths(seq![x]) == x.paths(),
        branch_list_names(a + b, scope)
            == branch_list_names(a, scope) + branch_list_names(b, scope),
        branch_list_names(seq![x], scope) == x.bare_names(scope),
{
    lemma_branch_paths_sum(a, b);
    lemma_branch_paths_one(x);
    lemma_branch_names_sum(a, b, scope);
    lemma_branch_names_one(x, scope);
}

/// A list of cases is read from front to back, and each of them in full.
pub proof fn law_case_lists_are_read_in_order(
    a: Seq<CaseTree>,
    b: Seq<CaseTree>,
    x: CaseTree,
    scope: Seq<Seq<char>>,
)
    ensures
        case_list_paths(a + b) == case_list_paths(a) + case_list_paths(b),
        case_list_paths(seq![x]) == x.paths(),
        case_list_names(a + b, scope) == case_list_names(a, scope) + case_list_names(b, scope),
        case_list_names(seq![x], scope) == x.bare_names(scope),
{
    lemma_case_paths_sum(a, b);
    lemma_case_paths_one(x);
    lemma_case_names_sum(a, b, scope);
    lemma_case_names_one(x, scope);
}

/// A list of selectors is read from front to back, and each of them in full.
pub proof fn law_selector_lists_are_read_in_order(
    a: Seq<SelectorTree>,
    b: Seq<SelectorTree>,
    x: SelectorTree,
    scope: Seq<Seq<char>>,
)
    ensures
        selector_list_paths(a + b) == selector_list_paths(a) + selector_list_paths(b),
        selector_list_paths(seq![x]) == x.paths(),
        selector_list_names(a + b, scope)
            == selector_list_names(a, scope) + selector_list_names(b, scope),
        selector_list_names(seq![x], scope) == x.bare_names(scope),
{
    lemma_selector_paths_sum(a, b);
    lemma_selector_paths_one(x);
    lemma_selector_names_sum(a, b, scope);
    lemma_selector_names_one(x, scope);
}

/// A list of typed names is read from front to back, and each of them in full.
pub proof fn law_typed_lists_are_read_in_order(
    a: Seq<TypedTree>,
    b: Seq<TypedTree>,
    x: TypedTree,
    scope: Seq<Seq<char>>,
)
    ensures
        typed_list_paths(a + b) == typed_list_paths(a) + typed_list_paths(b),
        typed_list_paths(seq![x]) == x.paths(),
        typed_list_names(a + b, scope) == typed_list_names(a, scope) + typed_list_names(b, scope),
        typed_list_names(seq![x], scope) == x.bare_names(scope),
{
    lemma_typed_paths_sum(a, b);
    lemma_typed_paths_one(x);
    lemma_typed_names_sum(a, b, scope);
    lemma_typed_names_one(x, scope);
}

/// A list of statements is read from front to back, and each of them in full. A statement knows
/// what those in front of it
/// in its list declare.
pub proof fn law_stmt_lists_are_read_in_order(
    a: Seq<StmtTree>,
    b: Seq<StmtTree>,
    x: StmtTree,
    scope: Seq<Seq<char>>,
)
    ensures
        stmt_list_paths(a + b) == stmt_list_paths(a) + stmt_list_paths(b),
        stmt_list_paths(seq![x]) == x.paths(),
        declared_names(a + b) == declared_names(a) + declared_names(b),
        stmt_list_names(a + b, scope) == stmt_list_names(a, scope) + stmt_list_names(
            b,
            scope + declared_names(a),
        ),
        stmt_list_names(seq![x], scope) == x.bare_names(scope),
        x matches StmtTree::Declaration(d) ==> declared_names(seq![x]) == seq![d.name],
        !(x is Declaration) ==> declared_names(seq![x]).len() == 0,
{
    lemma_stmt_paths_sum(a, b);
    lemma_stmt_paths_one(x);
    lemma_declared_sum(a, b);
    lemma_declared_one(x);
    lemma_stmt_names_sum(a, b, scope);
    lemma_stmt_names_one(x, scope);
}

/// A list of declarations is read from front to back, and each of them in full.
pub proof fn law_global_lists_are_read_in_order(
    a: Seq<GlobalTree>,
    b: Seq<GlobalTree>,
    x: GlobalTree,
)
    ensures
        global_list_paths(a + b) == global_list_paths(a) + global_list_paths(b),
        global_list_paths(seq![x]) == x.paths(),
        global_list_names(a + b) == global_list_names(a) + global_list_names(b),
        global_list_names(seq![x]) == x.bare_names(),
{
    lemma_global_paths_sum(a, b);
    lemma_global_paths_one(x);
    lemma_global_names_sum(a, b);
    lemma_global_names_one(x);
}

/// An operator reads as the list of its operands, brackets and a single operand read as what is in
/// them, and a call reads as what is called and then the arguments.
pub proof fn law_expressions_read_as_their_operands(
    a: ExprTree,
    b: ExprTree,
    call: CallTree,
    ty: TypeTree,
    scope: Seq<Seq<char>>,
)
    ensures
        ExprTree::Literal.paths().len() == 0,
        ExprTree::Literal.bare_names(scope).len() == 0,
        ExprTree::Parenthesized(Box::new(a)).paths() == a.paths(),
        ExprTree::Parenthesized(Box::new(a)).bare_names(scope) == a.bare_names(scope),
        ExprTree::NamedComponent(Box::new(a)).paths() == a.paths(),
        ExprTree::NamedComponent(Box::new(a)).bare_names(scope) == a.bare_names(scope),
        ExprTree::Unary(Box::new(a)).paths() == a.paths(),
        ExprTree::Unary(Box::new(a)).bare_names(scope) == a.bare_names(scope),
        ExprTree::Indexing(Box::new(a), Box::new(b)).paths() == expr_list_paths(seq![a] + seq![b]),
        ExprTree::Indexing(Box::new(a), Box::new(b)).bare_names(scope) == expr_list_names(
            seq![a] + seq![b],
            scope,
        ),
        ExprTree::Binary(Box::new(a), Box::new(b)).paths() == expr_list_paths(seq![a] + seq![b]),
        ExprTree::Binary(Box::new(a), Box::new(b)).bare_names(scope) == expr_list_names(
            seq![a] + seq![b],
            scope,
        ),
        call.paths() == expr_list_paths(seq![ExprTree::Type(call.ty)] + call.arguments),
        call.bare_names(scope) == expr_list_names(
            seq![ExprTree::Type(call.ty)] + call.arguments,
            scope,
        ),
        ExprTree::Call(call).paths() == call.paths(),
        ExprTree::Call(call).bare_names(scope) == call.bare_names(scope),
        ExprTree::Type(ty).paths() == ty.paths(),
        ExprTree::Type(ty).bare_names(scope) == ty.bare_names(scope),
{
    broadcast use group_lists;

}

/// A type expression writes its path, if it has one, and else uses its name bare, unless the name
/// is in scope. Its template arguments follow.
pub proof fn law_type_writes_its_path_or_its_name(
    path: PathView,
    name: Seq<char>,
    args: Option<Seq<ExprTree>>,
    scope: Seq<Seq<char>>,
)
    ensures
        ({
            let (more, more_names) = match args {
                Some(list) => (expr_list_paths(list), expr_list_names(list, scope)),
                None => (Seq::empty(), Seq::empty()),
            };
            let qualified = TypeTree { path: Some(path), name, template_args: args };
            let bare = TypeTree { path: None, name, template_args: args };
            &&& qualified.paths() == seq![path] + more
            &&& qualified.bare_names(scope) == more_names
            &&& bare.paths() == more
            &&& !scope.contains(name) ==> bare.bare_names(scope) == seq![name] + more_names
            &&& scope.contains(name) ==> bare.bare_names(scope) == more_names
        }),
{
    match args {
        Some(list) => {
            assert(Seq::<PathView>::empty() + expr_list_paths(list) == expr_list_paths(list));
            assert(Seq::<Seq<char>>::empty() + expr_list_names(list, scope) == expr_list_names(
                list,
                scope,
            ));
        },
        None => {
            assert(seq![path] + Seq::<PathView>::empty() == seq![path]);
            assert(seq![name] + Seq::<Seq<char>>::empty() == seq![name]);
        },
    }
}

/// What is written in a declaration, a typed name, a condition or a plain statement reads as one
/// list of expressions, the attributes in front.
pub proof fn law_simple_parts_read_as_lists(
    decl: DeclTree,
    typed: TypedTree,
    condition: ConditionTree,
    plain: PlainTree,
    scope: Seq<Seq<char>>,
)
    ensures
        ({
            let ty = match decl.ty {
                Some(t) => seq![ExprTree::Type(t)],
                None => Seq::empty(),
            };
            let initializer = match decl.initializer {
                Some(e) => seq![e],
                None => Seq::empty(),
            };
            &&& decl.paths() == expr_list_paths(decl.attributes + ty + initializer)
            &&& decl.bare_names(scope) == expr_list_names(
                decl.attributes + ty + initializer,
                scope,
            )
        }),
        typed.paths() == expr_list_paths(typed.attributes + seq![ExprTree::Type(typed.ty)]),
        typed.bare_names(scope) == expr_list_names(
            typed.attributes + seq![ExprTree::Type(typed.ty)],
            scope,
        ),
        condition.paths() == expr_list_paths(condition.attributes + seq![condition.value]),
        condition.bare_names(scope) == expr_list_names(
            condition.attributes + seq![condition.value],
            scope,
        ),
        ({
            let written = match plain.action {
                ActionTree::Assignment(lhs, rhs) => seq![lhs] + seq![rhs],
                ActionTree::Increment(e) => seq![e],
                ActionTree::Decrement(e) => seq![e],
                ActionTree::Return(Some(e)) => seq![e],
                ActionTree::Call(call) => seq![ExprTree::Call(call)],
                _ => Seq::empty(),
            };
            &&& plain.paths() == expr_list_paths(plain.attributes + written)
            &&& plain.bare_names(scope) == expr_list_names(plain.attributes + written, scope)
        }),
{
    broadcast use group_lists;

}

/// A statement reads as what it consists of, and a block as its attributes and its statements.
pub proof fn law_statements_read_as_their_parts(
    block: BlockTree,
    decl: DeclTree,
    condition: ConditionTree,
    plain: PlainTree,
    scope: Seq<Seq<char>>,
)
    ensures
        StmtTree::Void.paths().len() == 0,
        StmtTree::Void.bare_names(scope).len() == 0,
        StmtTree::Declaration(decl).paths() == decl.paths(),
        StmtTree::Declaration(decl).bare_names(scope) == decl.bare_names(scope),
        StmtTree::ConstAssert(condition).paths() == condition.paths(),
        StmtTree::ConstAssert(condition).bare_names(scope) == condition.bare_names(scope),
        StmtTree::Plain(plain).paths() == plain.paths(),
        StmtTree::Plain(plain).bare_names(scope) == plain.bare_names(scope),
        StmtTree::Compound(block).paths() == block.paths(),
        StmtTree::Compound(block).bare_names(scope) == block.bare_names(scope),
        block.paths() == expr_list_paths(block.attributes) + stmt_list_paths(block.statements),
        block.bare_names(scope) == expr_list_names(block.attributes, scope) + stmt_list_names(
            block.statements,
            scope,
        ),
{
}

/// A `while` loop reads as an assertion of its condition and then its body.
pub proof fn law_while_reads_as_a_list(tree: BranchTree, scope: Seq<Seq<char>>)
    ensures
        ({
            let condition = ConditionTree { attributes: tree.attributes, value: tree.condition };
            let steps = seq![StmtTree::ConstAssert(condition)] + seq![StmtTree::Compound(tree.body)];
            &&& tree.paths() == stmt_list_paths(steps)
            &&& tree.bare_names(scope) == stmt_list_names(steps, scope)
            &&& StmtTree::While(tree).paths() == tree.paths()
            &&& StmtTree::While(tree).bare_names(scope) == tree.bare_names(scope)
        }),
{
    broadcast use group_lists;

    let condition = ConditionTree { attributes: tree.attributes, value: tree.condition };
    assert(scope + StmtTree::ConstAssert(condition).declared() == scope);
}

/// An `if` alone reads as a `while` loop. With an `else`, the block of that follows.
pub proof fn law_if_reads_as_a_list(
    first: BranchTree,
    otherwise: ElseTree,
    scope: Seq<Seq<char>>,
)
    ensures
        ({
            let alone = IfTree { first, else_ifs: Seq::empty(), otherwise: None };
            &&& alone.paths() == first.paths()
            &&& alone.bare_names(scope) == first.bare_names(scope)
            &&& StmtTree::If(alone).paths() == alone.paths()
            &&& StmtTree::If(alone).bare_names(scope) == alone.bare_names(scope)
        }),
        ({
            let both = IfTree { first, else_ifs: Seq::empty(), otherwise: Some(otherwise) };
            let block = BlockTree {
                attributes: otherwise.attributes,
                statements: seq![StmtTree::Compound(otherwise.body)],
            };
            let steps = seq![StmtTree::While(first)] + seq![StmtTree::Compound(block)];
            &&& both.paths() == stmt_list_paths(steps)
            &&& both.bare_names(scope) == stmt_list_names(steps, scope)
            &&& StmtTree::If(both).paths() == both.paths()
            &&& StmtTree::If(both).bare_names(scope) == both.bare_names(scope)
        }),
{
    broadcast use group_lists;

    assert(scope + StmtTree::While(first).declared() == scope);
    assert(first.paths() + branch_list_paths(Seq::empty()) == first.paths());
    assert(first.bare_names(scope) + branch_list_names(Seq::empty(), scope) == first.bare_names(
        scope,
    ));
}

/// An `else if` reads as an `if` in an `else`, however many of them there are.
pub proof fn law_else_if_reads_as_else_and_if(
    first: BranchTree,
    second: BranchTree,
    rest: Seq<BranchTree>,
    otherwise: Option<ElseTree>,
    scope: Seq<Seq<char>>,
)
    ensures
        ({
            let chain = IfTree { first, else_ifs: seq![second] + rest, otherwise };
            let inner = IfTree { first: second, else_ifs: rest, otherwise };
            let block = BlockTree {
                attributes: Seq::empty(),
                statements: seq![StmtTree::If(inner)],
            };
            let nested = IfTree {
                first,
                else_ifs: Seq::empty(),
                otherwise: Some(ElseTree { attributes: Seq::empty(), body: block }),
            };
            &&& chain.paths() == nested.paths()
            &&& chain.bare_names(scope) == nested.bare_names(scope)
            &&& StmtTree::If(chain).paths() == chain.paths()
            &&& StmtTree::If(chain).bare_names(scope) == chain.bare_names(scope)
        }),
{
    broadcast use group_lists;

    let inner = IfTree { first: second, else_ifs: rest, otherwise };
    let chain = IfTree { first, else_ifs: seq![second] + rest, otherwise };
    let block = BlockTree { attributes: Seq::empty(), statements: seq![StmtTree::If(inner)] };
    let nested = IfTree {
        first,
        else_ifs: Seq::empty(),
        otherwise: Some(ElseTree { attributes: Seq::empty(), body: block }),
    };
    assert(block.paths() == inner.paths());
    assert(block.bare_names(scope) == inner.bare_names(scope));
    assert(nested.paths() == first.paths() + inner.paths());
    assert(nested.bare_names(scope) == first.bare_names(scope) + inner.bare_names(scope));
    assert(chain.paths() == first.paths() + inner.paths());
    assert(chain.bare_names(scope) == first.bare_names(scope) + inner.bare_names(scope));
}

/// A `switch` reads as its subject and then its cases, and a case as its selectors and its body.
pub proof fn law_switch_reads_as_its_cases(
    tree: SwitchTree,
    case: CaseTree,
    e: ExprTree,
    scope: Seq<Seq<char>>,
)
    ensures
        ({
            let head = tree.attributes + seq![tree.subject] + tree.body_attributes;
            &&& tree.paths() == expr_list_paths(head) + case_list_paths(tree.cases)
            &&& tree.bare_names(scope) == expr_list_names(head, scope) + case_list_names(
                tree.cases,
                scope,
            )
            &&& StmtTree::Switch(tree).paths() == tree.paths()
            &&& StmtTree::Switch(tree).bare_names(scope) == tree.bare_names(scope)
        }),
        case.paths() == expr_list_paths(case.attributes) + selector_list_paths(case.selectors)
            + case.body.paths(),
        case.bare_names(scope) == expr_list_names(case.attributes, scope) + selector_list_names(
            case.selectors,
            scope,
        ) + case.body.bare_names(scope),
        SelectorTree::Default.paths().len() == 0,
        SelectorTree::Default.bare_names(scope).len() == 0,
        SelectorTree::Value(e).paths() == e.paths(),
        SelectorTree::Value(e).bare_names(scope) == e.bare_names(scope),
{
    broadcast use group_lists;

}

/// A loop reads as its body. A `continuing` block reads as if it stood at the end of the body, and
/// its `break if` as if that stood at the end of the block: each knows what is declared in front
/// of it.
pub proof fn law_loop_reads_as_a_block(
    attributes: Seq<ExprTree>,
    body: BlockTree,
    continuing: ContinuingTree,
    scope: Seq<Seq<char>>,
)
    ensures
        ({
            let tree = LoopTree { attributes, body, continuing: None };
            &&& tree.paths() == expr_list_paths(attributes) + body.paths()
            &&& tree.bare_names(scope) == expr_list_names(attributes, scope) + body.bare_names(
                scope,
            )
            &&& StmtTree::Loop(tree).paths() == tree.paths()
            &&& StmtTree::Loop(tree).bare_names(scope) == tree.bare_names(scope)
        }),
        ({
            let tree = LoopTree { attributes, body, continuing: Some(continuing) };
            let last = match continuing.break_if {
                Some(condition) => seq![StmtTree::ConstAssert(condition)],
                None => Seq::empty(),
            };
            let inner = BlockTree {
                attributes: continuing.body.attributes,
                statements: continuing.body.statements + last,
            };
            let block = BlockTree {
                attributes: continuing.attributes,
                statements: seq![StmtTree::Compound(inner)],
            };
            let whole = BlockTree {
                attributes: body.attributes,
                statements: body.statements + seq![StmtTree::Compound(block)],
            };
            let simple = LoopTree { attributes, body: whole, continuing: None };
            &&& tree.paths() == simple.paths()
            &&& tree.bare_names(scope) == simple.bare_names(scope)
            &&& StmtTree::Loop(tree).paths() == tree.paths()
            &&& StmtTree::Loop(tree).bare_names(scope) == tree.bare_names(scope)
        }),
{
    broadcast use group_lists;

    let known = scope + declared_names(body.statements);
    let tree = LoopTree { attributes, body, continuing: Some(continuing) };
    let last = match continuing.break_if {
        Some(condition) => seq![StmtTree::ConstAssert(condition)],
        None => Seq::empty(),
    };
    let inner = BlockTree {
        attributes: continuing.body.attributes,
        statements: continuing.body.statements + last,
    };
    let block = BlockTree {
        attributes: continuing.attributes,
        statements: seq![StmtTree::Compound(inner)],
    };
    let whole = BlockTree {
        attributes: body.attributes,
        statements: body.statements + seq![StmtTree::Compound(block)],
    };
    assert(expr_list_paths(continuing.attributes) + inner.paths() == continuing.paths());
    assert(expr_list_names(continuing.attributes, known) + inner.bare_names(known)
        == continuing.bare_names(known));
    assert(whole.paths() == body.paths() + continuing.paths());
    assert(whole.bare_names(scope) == body.bare_names(scope) + continuing.bare_names(known));
    assert(tree.paths() == expr_list_paths(attributes) + whole.paths());
    assert(tree.bare_names(scope) == expr_list_names(attributes, scope) + whole.bare_names(scope));
}

/// A `for` loop reads as a block of its initializer, an assertion of its condition, its update and
/// its body: what the initializer declares is known to all that follow.
pub proof fn law_for_reads_as_a_block(tree: ForTree, scope: Seq<Seq<char>>)
    ensures
        ({
            let initializer = match tree.initializer {
                Some(s) => seq![*s],
                None => Seq::empty(),
            };
            let condition = match tree.condition {
                Some(value) => seq![
                    StmtTree::ConstAssert(ConditionTree { attributes: Seq::empty(), value }),
                ],
                None => Seq::empty(),
            };
            // Behind the condition a declaration would be known to the body only.
            let update = match tree.update {
                Some(s) => seq![
                    StmtTree::Compound(
                        BlockTree { attributes: Seq::empty(), statements: seq![*s] },
                    ),
                ],
                None => Seq::empty(),
            };
            let steps = initializer + condition + update + seq![StmtTree::Compound(tree.body)];
            let block = BlockTree { attributes: tree.attributes, statements: steps };
            &&& tree.paths() == block.paths()
            &&& tree.bare_names(scope) == block.bare_names(scope)
            &&& StmtTree::For(tree).paths() == tree.paths()
            &&& StmtTree::For(tree).bare_names(scope) == tree.bare_names(scope)
        }),
{
    let initializer = match tree.initializer {
        Some(s) => seq![*s],
        None => Seq::empty(),
    };
    let condition = match tree.condition {
        Some(value) => seq![
            StmtTree::ConstAssert(ConditionTree { attributes: Seq::empty(), value }),
        ],
        None => Seq::empty(),
    };
    let update = match tree.update {
        Some(s) => seq![
            StmtTree::Compound(BlockTree { attributes: Seq::empty(), statements: seq![*s] }),
        ],
        None => Seq::empty(),
    };
    let last = StmtTree::Compound(tree.body);
    let inner = scope + declared_names(initializer);
    lemma_for_initializer(tree, scope);
    lemma_for_condition(tree, inner);
    lemma_for_update(tree, inner);
    lemma_stmt_paths_sum(initializer, condition);
    lemma_stmt_paths_sum(initializer + condition, update);
    lemma_stmt_paths_sum(initializer + condition + update, seq![last]);
    lemma_stmt_paths_one(last);
    lemma_stmt_names_sum(initializer, condition, scope);
    lemma_stmt_names_sum(initializer + condition, update, scope);
    lemma_stmt_names_sum(initializer + condition + update, seq![last], scope);
    lemma_stmt_names_one(last, inner);
    lemma_declared_sum(initializer, condition);
    lemma_declared_sum(initializer + condition, update);
    assert(scope + declared_names(initializer + condition) == inner);
    assert(scope + declared_names(initializer + condition + update) == inner);
    let block = BlockTree {
        attributes: tree.attributes,
        statements: initializer + condition + update + seq![last],
    };
    lemma_block_paths_are(block);
    lemma_block_names_are(block, scope);
    assert(block.paths() == expr_list_paths(tree.attributes) + (stmt_list_paths(initializer)
        + stmt_list_paths(condition) + stmt_list_paths(update) + tree.body.paths()));
    assert(tree.paths() == block.paths());
    assert(block.bare_names(scope) == expr_list_names(tree.attributes, scope) + (stmt_list_names(
        initializer,
        scope,
    ) + stmt_list_names(condition, inner) + stmt_list_names(update, inner)
        + tree.body.bare_names(inner)));
    assert(tree.bare_names(scope) == block.bare_names(scope));
}

proof fn lemma_for_initializer(tree: ForTree, scope: Seq<Seq<char>>)
    ensures
        ({
            let list = match tree.initializer {
                Some(s) => seq![*s],
                None => Seq::empty(),
            };
            &&& stmt_list_paths(list) == match tree.initializer {
                Some(s) => s.paths(),
                None => Seq::empty(),
            }
            &&& stmt_list_names(list, scope) == match tree.initializer {
                Some(s) => s.bare_names(scope),
                None => Seq::empty(),
            }
            &&& scope + declared_names(list) == match tree.initializer {
                Some(s) => scope + s.declared(),
                None => scope,
            }
        }),
{
    match tree.initializer {
        Some(s) => {
            lemma_stmt_paths_one(*s);
            lemma_stmt_names_one(*s, scope);
            lemma_declared_one(*s);
        },
        None => {
            assert(scope + declared_names(Seq::<StmtTree>::empty()) == scope);
        },
    }
}

proof fn lemma_for_condition(tree: ForTree, scope: Seq<Seq<char>>)
    ensures
        ({
            let list = match tree.condition {
                Some(value) => seq![
                    StmtTree::ConstAssert(ConditionTree { attributes: Seq::empty(), value }),
                ],
                None => Seq::empty(),
            };
            &&& stmt_list_paths(list) == match tree.condition {
                Some(e) => e.paths(),
                None => Seq::empty(),
            }
            &&& stmt_list_names(list, scope) == match tree.condition {
                Some(e) => e.bare_names(scope),
                None => Seq::empty(),
            }
            &&& declared_names(list) == Seq::<Seq<char>>::empty()
        }),
{
    if let Some(value) = tree.condition {
        let condition = ConditionTree { attributes: Seq::empty(), value };
        let assertion = StmtTree::ConstAssert(condition);
        lemma_stmt_paths_one(assertion);
        lemma_stmt_names_one(assertion, scope);
        lemma_declared_one(assertion);
        assert(condition.paths() == value.paths());
        assert(condition.bare_names(scope) == value.bare_names(scope));
    }
}

proof fn lemma_for_update(tree: ForTree, scope: Seq<Seq<char>>)
    ensures
        ({
            let list = match tree.update {
                Some(s) => seq![
                    StmtTree::Compound(
                        BlockTree { attributes: Seq::empty(), statements: seq![*s] },
                    ),
                ],
                None => Seq::empty(),
            };
            &&& stmt_list_paths(list) == match tree.update {
                Some(s) => s.paths(),
                None => Seq::empty(),
            }
            &&& stmt_list_names(list, scope) == match tree.update {
                Some(s) => s.bare_names(scope),
                None => Seq::empty(),
            }
            &&& declared_names(list) == Seq::<Seq<char>>::empty()
        }),
{
    if let Some(s) = tree.update {
        let block = BlockTree { attributes: Seq::empty(), statements: seq![*s] };
        let compound = StmtTree::Compound(block);
        lemma_stmt_paths_one(*s);
        lemma_stmt_names_one(*s, scope);
        lemma_stmt_paths_one(compound);
        lemma_stmt_names_one(compound, scope);
        lemma_declared_one(compound);
        lemma_block_paths_are(block);
        lemma_block_names_are(block, scope);
        assert(block.paths() == s.paths());
        assert(block.bare_names(scope) == s.bare_names(scope));
    }
}

/// A struct reads as its attributes and its members. A function reads as a struct of its
/// parameters,
/// then what it returns, then its body: only the statements of the body know the parameters.
pub proof fn law_functions_read_as_structs_and_bodies(
    members: StructTree,
    tree: FunctionTree,
    known: Seq<Seq<char>>,
)
    requires
        known.len() == tree.parameters.len(),
        forall|i: int| 0 <= i < known.len() ==> #[trigger] known[i] == tree.parameters[i].name,
    ensures
        members.paths() == expr_list_paths(members.attributes) + typed_list_paths(members.members),
        members.bare_names() == expr_list_names(members.attributes, Seq::empty())
            + typed_list_names(members.members, Seq::empty()),
        ({
            let front = StructTree { attributes: tree.attributes, members: tree.parameters };
            let ty = match tree.return_type {
                Some(t) => seq![ExprTree::Type(t)],
                None => Seq::empty(),
            };
            let returned = tree.return_attributes + ty;
            &&& tree.paths() == front.paths() + expr_list_paths(returned) + tree.body.paths()
            &&& tree.bare_names() == front.bare_names() + expr_list_names(
                returned + tree.body.attributes,
                Seq::empty(),
            ) + stmt_list_names(tree.body.statements, known)
        }),
{
    broadcast use group_lists;

    assert(parameter_names(tree.parameters) == known);
    let front = StructTree { attributes: tree.attributes, members: tree.parameters };
    let ty = match tree.return_type {
        Some(t) => seq![ExprTree::Type(t)],
        None => Seq::empty(),
    };
    let returned = tree.return_attributes + ty;
    assert(tree.paths() == front.paths() + expr_list_paths(returned) + tree.body.paths());
    assert(tree.bare_names() == front.bare_names() + expr_list_names(
        returned + tree.body.attributes,
        Seq::empty(),
    ) + stmt_list_names(tree.body.statements, known));
}

/// A declaration at the top level reads as what it declares, in no scope.
pub proof fn law_global_declarations_read_as_their_parts(
    decl: DeclTree,
    alias: TypedTree,
    members: StructTree,
    function: FunctionTree,
    condition: ConditionTree,
)
    ensures
        GlobalTree::Void.paths().len() == 0,
        GlobalTree::Void.bare_names().len() == 0,
        GlobalTree::Declaration(decl).paths() == decl.paths(),
        GlobalTree::Declaration(decl).bare_names() == decl.bare_names(Seq::empty()),
        GlobalTree::TypeAlias(alias).paths() == alias.paths(),
        GlobalTree::TypeAlias(alias).bare_names() == alias.bare_names(Seq::empty()),
        GlobalTree::Struct(members).paths() == members.paths(),
        GlobalTree::Struct(members).bare_names() == members.bare_names(),
        GlobalTree::Function(function).paths() == function.paths(),
        GlobalTree::Function(function).bare_names() == function.bare_names(),
        GlobalTree::ConstAssert(condition).paths() == condition.paths(),
        GlobalTree::ConstAssert(condition).bare_names() == condition.bare_names(Seq::empty()),
{
}

/// A source can be cut between any two declarations: what is found in it is what is found in the
/// first part and then what is found in the second. Imports are no use sites.
pub proof fn law_sources_are_read_declaration_by_declaration(
    imports: Seq<ImportTree>,
    a: Seq<GlobalTree>,
    b: Seq<GlobalTree>,
    x: GlobalTree,
)
    ensures
        ({
            let both = UnitTree { imports, declarations: a + b };
            let front = UnitTree { imports: Seq::empty(), declarations: a };
            let back = UnitTree { imports: Seq::empty(), declarations: b };
            let one = UnitTree { imports, declarations: seq![x] };
            &&& both.paths() == front.paths() + back.paths()
            &&& both.bare_names() == front.bare_names() + back.bare_names()
            &&& one.paths() == x.paths()
            &&& one.bare_names() == x.bare_names()
        }),
{
    broadcast use group_lists;

}

}
