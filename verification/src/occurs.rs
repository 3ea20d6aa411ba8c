//! Every use site counts, however deep it stands: what occurs in a source is found in it.

use vstd::prelude::*;

use crate::names::{
    branch_list_names, case_list_names, declared_names, expr_list_names, global_list_names,
    parameter_names, selector_list_names, stmt_list_names, typed_list_names,
};
use crate::path::PathView;
use crate::scopes::{lemma_exprs_scope, lemma_sum_contains};
use crate::syntax::{
    ActionTree, BlockTree, BranchTree, CallTree, CaseTree, ConditionTree, ContinuingTree, DeclTree,
    ElseTree, ExprTree, ForTree, FunctionTree, GlobalTree, IfTree, LoopTree, PlainTree,
    SelectorTree, StmtTree, StructTree, SwitchTree, TypeTree, TypedTree, UnitTree,
};
use crate::usage::{
    branch_list_paths, case_list_paths, expr_list_paths, global_list_paths, selector_list_paths,
    stmt_list_paths, typed_list_paths,
};

verus! {

/// A part of a source, or the whole of it.
pub enum Node {
    Type(TypeTree),
    Call(CallTree),
    Expr(ExprTree),
    Decl(DeclTree),
    Typed(TypedTree),
    Condition(ConditionTree),
    Plain(PlainTree),
    Stmt(StmtTree),
    Block(BlockTree),
    Branch(BranchTree),
    If(IfTree),
    Else(ElseTree),
    Switch(SwitchTree),
    Case(CaseTree),
    Loop(LoopTree),
    Continuing(ContinuingTree),
    For(ForTree),
    Struct(StructTree),
    Function(FunctionTree),
    Global(GlobalTree),
    Unit(UnitTree),
}

impl Node {
    /// Whether `part` stands right below this node.
    pub open spec fn holds(self, part: Node) -> bool {
        match (self, part) {
            (Node::Type(tree), Node::Expr(x)) => tree.template_args matches Some(list)
                && list.contains(x),
            (Node::Call(tree), Node::Type(x)) => x == tree.ty,
            (Node::Call(tree), Node::Expr(x)) => tree.arguments.contains(x),
            (Node::Expr(tree), Node::Expr(x)) => match tree {
                ExprTree::Parenthesized(e) => x == *e,
                ExprTree::NamedComponent(e) => x == *e,
                ExprTree::Unary(e) => x == *e,
                ExprTree::Indexing(a, b) => x == *a || x == *b,
                ExprTree::Binary(a, b) => x == *a || x == *b,
                _ => false,
            },
            (Node::Expr(tree), Node::Call(x)) => tree == ExprTree::Call(x),
            (Node::Expr(tree), Node::Type(x)) => tree == ExprTree::Type(x),
            (Node::Decl(tree), Node::Expr(x)) => {
                ||| tree.attributes.contains(x)
                ||| tree.initializer == Some(x)
            },
            (Node::Decl(tree), Node::Type(x)) => tree.ty == Some(x),
            (Node::Typed(tree), Node::Expr(x)) => tree.attributes.contains(x),
            (Node::Typed(tree), Node::Type(x)) => x == tree.ty,
            (Node::Condition(tree), Node::Expr(x)) => {
                ||| tree.attributes.contains(x)
                ||| x == tree.value
            },
            (Node::Plain(tree), Node::Expr(x)) => {
                ||| tree.attributes.contains(x)
                ||| tree.action matches ActionTree::Assignment(a, b) && (x == a || x == b)
                ||| tree.action == ActionTree::Increment(x)
                ||| tree.action == ActionTree::Decrement(x)
                ||| tree.action == ActionTree::Return(Some(x))
            },
            (Node::Plain(tree), Node::Call(x)) => tree.action == ActionTree::Call(x),
            (Node::Stmt(tree), Node::Block(x)) => tree == StmtTree::Compound(x),
            (Node::Stmt(tree), Node::If(x)) => tree == StmtTree::If(x),
            (Node::Stmt(tree), Node::Switch(x)) => tree == StmtTree::Switch(x),
            (Node::Stmt(tree), Node::Loop(x)) => tree == StmtTree::Loop(x),
            (Node::Stmt(tree), Node::For(x)) => tree == StmtTree::For(x),
            (Node::Stmt(tree), Node::Branch(x)) => tree == StmtTree::While(x),
            (Node::Stmt(tree), Node::Plain(x)) => tree == StmtTree::Plain(x),
            (Node::Stmt(tree), Node::Condition(x)) => tree == StmtTree::ConstAssert(x),
            (Node::Stmt(tree), Node::Decl(x)) => tree == StmtTree::Declaration(x),
            (Node::Block(tree), Node::Expr(x)) => tree.attributes.contains(x),
            (Node::Block(tree), Node::Stmt(x)) => tree.statements.contains(x),
            (Node::Branch(tree), Node::Expr(x)) => {
                ||| tree.attributes.contains(x)
                ||| x == tree.condition
            },
            (Node::Branch(tree), Node::Block(x)) => x == tree.body,
            (Node::If(tree), Node::Branch(x)) => {
                ||| x == tree.first
                ||| tree.else_ifs.contains(x)
            },
            (Node::If(tree), Node::Else(x)) => tree.otherwise == Some(x),
            (Node::Else(tree), Node::Expr(x)) => tree.attributes.contains(x),
            (Node::Else(tree), Node::Block(x)) => x == tree.body,
            (Node::Switch(tree), Node::Expr(x)) => {
                ||| tree.attributes.contains(x)
                ||| x == tree.subject
                ||| tree.body_attributes.contains(x)
            },
            (Node::Switch(tree), Node::Case(x)) => tree.cases.contains(x),
            (Node::Case(tree), Node::Expr(x)) => {
                ||| tree.attributes.contains(x)
                ||| tree.selectors.contains(SelectorTree::Value(x))
            },
            (Node::Case(tree), Node::Block(x)) => x == tree.body,
            (Node::Loop(tree), Node::Expr(x)) => tree.attributes.contains(x),
            (Node::Loop(tree), Node::Block(x)) => x == tree.body,
            (Node::Loop(tree), Node::Continuing(x)) => tree.continuing == Some(x),
            (Node::Continuing(tree), Node::Expr(x)) => tree.attributes.contains(x),
            (Node::Continuing(tree), Node::Block(x)) => x == tree.body,
            (Node::Continuing(tree), Node::Condition(x)) => tree.break_if == Some(x),
            (Node::For(tree), Node::Expr(x)) => {
                ||| tree.attributes.contains(x)
                ||| tree.condition == Some(x)
            },
            (Node::For(tree), Node::Stmt(x)) => {
                ||| tree.initializer == Some(Box::new(x))
                ||| tree.update == Some(Box::new(x))
            },
            (Node::For(tree), Node::Block(x)) => x == tree.body,
            (Node::Struct(tree), Node::Expr(x)) => tree.attributes.contains(x),
            (Node::Struct(tree), Node::Typed(x)) => tree.members.contains(x),
            (Node::Function(tree), Node::Expr(x)) => {
                ||| tree.attributes.contains(x)
                ||| tree.return_attributes.contains(x)
            },
            (Node::Function(tree), Node::Typed(x)) => tree.parameters.contains(x),
            (Node::Function(tree), Node::Type(x)) => tree.return_type == Some(x),
            (Node::Function(tree), Node::Block(x)) => x == tree.body,
            (Node::Global(tree), Node::Decl(x)) => tree == GlobalTree::Declaration(x),
            (Node::Global(tree), Node::Typed(x)) => tree == GlobalTree::TypeAlias(x),
            (Node::Global(tree), Node::Struct(x)) => tree == GlobalTree::Struct(x),
            (Node::Global(tree), Node::Function(x)) => tree == GlobalTree::Function(x),
            (Node::Global(tree), Node::Condition(x)) => tree == GlobalTree::ConstAssert(x),
            (Node::Unit(tree), Node::Global(x)) => tree.declarations.contains(x),
            _ => false,
        }
    }

    /// Whether this node makes `name` known to some of what stands below it: a function by a
    /// parameter, a block or a loop by a declaration.
    pub open spec fn makes_known(self, name: Seq<char>) -> bool {
        match self {
            Node::Function(tree) => exists|i: int|
                0 <= i < tree.parameters.len() && (#[trigger] tree.parameters[i]).name == name,
            Node::Block(tree) => declares(tree.statements, name),
            Node::Loop(tree) => declares(tree.body.statements, name),
            Node::Continuing(tree) => declares(tree.body.statements, name),
            Node::For(tree) => tree.initializer matches Some(s) && declares(seq![*s], name),
            _ => false,
        }
    }

    spec fn paths(self) -> Seq<PathView> {
        match self {
            Node::Type(tree) => tree.paths(),
            Node::Call(tree) => tree.paths(),
            Node::Expr(tree) => tree.paths(),
            Node::Decl(tree) => tree.paths(),
            Node::Typed(tree) => tree.paths(),
            Node::Condition(tree) => tree.paths(),
            Node::Plain(tree) => tree.paths(),
            Node::Stmt(tree) => tree.paths(),
            Node::Block(tree) => tree.paths(),
            Node::Branch(tree) => tree.paths(),
            Node::If(tree) => tree.paths(),
            Node::Else(tree) => tree.paths(),
            Node::Switch(tree) => tree.paths(),
            Node::Case(tree) => tree.paths(),
            Node::Loop(tree) => tree.paths(),
            Node::Continuing(tree) => tree.paths(),
            Node::For(tree) => tree.paths(),
            Node::Struct(tree) => tree.paths(),
            Node::Function(tree) => tree.paths(),
            Node::Global(tree) => tree.paths(),
            Node::Unit(tree) => tree.paths(),
        }
    }

    spec fn bare_names(self, scope: Seq<Seq<char>>) -> Seq<Seq<char>> {
        match self {
            Node::Type(tree) => tree.bare_names(scope),
            Node::Call(tree) => tree.bare_names(scope),
            Node::Expr(tree) => tree.bare_names(scope),
            Node::Decl(tree) => tree.bare_names(scope),
            Node::Typed(tree) => tree.bare_names(scope),
            Node::Condition(tree) => tree.bare_names(scope),
            Node::Plain(tree) => tree.bare_names(scope),
            Node::Stmt(tree) => tree.bare_names(scope),
            Node::Block(tree) => tree.bare_names(scope),
            Node::Branch(tree) => tree.bare_names(scope),
            Node::If(tree) => tree.bare_names(scope),
            Node::Else(tree) => tree.bare_names(scope),
            Node::Switch(tree) => tree.bare_names(scope),
            Node::Case(tree) => tree.bare_names(scope),
            Node::Loop(tree) => tree.bare_names(scope),
            Node::Continuing(tree) => tree.bare_names(scope),
            Node::For(tree) => tree.bare_names(scope),
            Node::Struct(tree) => tree.bare_names(),
            Node::Function(tree) => tree.bare_names(),
            Node::Global(tree) => tree.bare_names(),
            Node::Unit(tree) => tree.bare_names(),
        }
    }
}

/// Whether one of the statements declares `name`.
pub open spec fn declares(list: Seq<StmtTree>, name: Seq<char>) -> bool {
    exists|i: int|
        0 <= i < list.len() && (#[trigger] list[i] matches StmtTree::Declaration(d) && d.name
            == name)
}

/// Whether each node of a chain stands right below the one in front of it.
pub open spec fn leads_down(chain: Seq<Node>) -> bool {
    forall|i: int| 0 < i < chain.len() ==> chain[i - 1].holds(#[trigger] chain[i])
}

proof fn lemma_in_exprs(list: Seq<ExprTree>, x: ExprTree, scope: Seq<Seq<char>>)
    requires
        list.contains(x),
    ensures
        forall|p: PathView|
            #![trigger expr_list_paths(list).contains(p)]
            x.paths().contains(p) ==> expr_list_paths(list).contains(p),
        forall|name: Seq<char>|
            #![trigger expr_list_names(list, scope).contains(name)]
            x.bare_names(scope).contains(name) ==> expr_list_names(list, scope).contains(name),
    decreases list.len(),
{
    let before = list.drop_last();
    let i = choose|i: int| 0 <= i < list.len() && list[i] == x;
    if i < before.len() {
        assert(before[i] == x);
        lemma_in_exprs(before, x, scope);
    }
    assert forall|p: PathView|
        #![trigger expr_list_paths(list).contains(p)]
        x.paths().contains(p) implies expr_list_paths(list).contains(p) by {
        lemma_sum_contains(expr_list_paths(before), list.last().paths(), p);
        if i < before.len() {
            assert(expr_list_paths(before).contains(p));
        }
    }
    assert forall|name: Seq<char>|
        #![trigger expr_list_names(list, scope).contains(name)]
        x.bare_names(scope).contains(name) implies expr_list_names(list, scope).contains(name) by {
        lemma_sum_contains(expr_list_names(before, scope), list.last().bare_names(scope), name);
        if i < before.len() {
            assert(expr_list_names(before, scope).contains(name));
        }
    }
}

proof fn lemma_in_branches(list: Seq<BranchTree>, x: BranchTree, scope: Seq<Seq<char>>)
    requires
        list.contains(x),
    ensures
        forall|p: PathView|
            #![trigger branch_list_paths(list).contains(p)]
            x.paths().contains(p) ==> branch_list_paths(list).contains(p),
        forall|name: Seq<char>|
            #![trigger branch_list_names(list, scope).contains(name)]
            x.bare_names(scope).contains(name) ==> branch_list_names(list, scope).contains(name),
    decreases list.len(),
{
    let before = list.drop_last();
    let i = choose|i: int| 0 <= i < list.len() && list[i] == x;
    if i < before.len() {
        assert(before[i] == x);
        lemma_in_branches(before, x, scope);
    }
    assert forall|p: PathView|
        #![trigger branch_list_paths(list).contains(p)]
        x.paths().contains(p) implies branch_list_paths(list).contains(p) by {
        lemma_sum_contains(branch_list_paths(before), list.last().paths(), p);
        if i < before.len() {
            assert(branch_list_paths(before).contains(p));
        }
    }
    assert forall|name: Seq<char>|
        #![trigger branch_list_names(list, scope).contains(name)]
        x.bare_names(scope).contains(name) implies branch_list_names(list, scope).contains(name) by {
        lemma_sum_contains(branch_list_names(before, scope), list.last().bare_names(scope), name);
        if i < before.len() {
            assert(branch_list_names(before, scope).contains(name));
        }
    }
}

proof fn lemma_in_cases(list: Seq<CaseTree>, x: CaseTree, scope: Seq<Seq<char>>)
    requires
        list.contains(x),
    ensures
        forall|p: PathView|
            #![trigger case_list_paths(list).contains(p)]
            x.paths().contains(p) ==> case_list_paths(list).contains(p),
        forall|name: Seq<char>|
            #![trigger case_list_names(list, scope).contains(name)]
            x.bare_names(scope).contains(name) ==> case_list_names(list, scope).contains(name),
    decreases list.len(),
{
    let before = list.drop_last();
    let i = choose|i: int| 0 <= i < list.len() && list[i] == x;
    if i < before.len() {
        assert(before[i] == x);
        lemma_in_cases(before, x, scope);
    }
    assert forall|p: PathView|
        #![trigger case_list_paths(list).contains(p)]
        x.paths().contains(p) implies case_list_paths(list).contains(p) by {
        lemma_sum_contains(case_list_paths(before), list.last().paths(), p);
        if i < before.len() {
            assert(case_list_paths(before).contains(p));
        }
    }
    assert forall|name: Seq<char>|
        #![trigger case_list_names(list, scope).contains(name)]
        x.bare_names(scope).contains(name) implies case_list_names(list, scope).contains(name) by {
        lemma_sum_contains(case_list_names(before, scope), list.last().bare_names(scope), name);
        if i < before.len() {
            assert(case_list_names(before, scope).contains(name));
        }
    }
}

proof fn lemma_in_typed_names(list: Seq<TypedTree>, x: TypedTree, scope: Seq<Seq<char>>)
    requires
        list.contains(x),
    ensures
        forall|p: PathView|
            #![trigger typed_list_paths(list).contains(p)]
            x.paths().contains(p) ==> typed_list_paths(list).contains(p),
        forall|name: Seq<char>|
            #![trigger typed_list_names(list, scope).contains(name)]
            x.bare_names(scope).contains(name) ==> typed_list_names(list, scope).contains(name),
    decreases list.len(),
{
    let before = list.drop_last();
    let i = choose|i: int| 0 <= i < list.len() && list[i] == x;
    if i < before.len() {
        assert(before[i] == x);
        lemma_in_typed_names(before, x, scope);
    }
    assert forall|p: PathView|
        #![trigger typed_list_paths(list).contains(p)]
        x.paths().contains(p) implies typed_list_paths(list).contains(p) by {
        lemma_sum_contains(typed_list_paths(before), list.last().paths(), p);
        if i < before.len() {
            assert(typed_list_paths(before).contains(p));
        }
    }
    assert forall|name: Seq<char>|
        #![trigger typed_list_names(list, scope).contains(name)]
        x.bare_names(scope).contains(name) implies typed_list_names(list, scope).contains(name) by {
        lemma_sum_contains(typed_list_names(before, scope), list.last().bare_names(scope), name);
        if i < before.len() {
            assert(typed_list_names(before, scope).contains(name));
        }
    }
}

proof fn lemma_in_selectors(list: Seq<SelectorTree>, x: ExprTree, scope: Seq<Seq<char>>)
    requires
        list.contains(SelectorTree::Value(x)),
    ensures
        forall|p: PathView|
            #![trigger selector_list_paths(list).contains(p)]
            x.paths().contains(p) ==> selector_list_paths(list).contains(p),
        forall|name: Seq<char>|
            #![trigger selector_list_names(list, scope).contains(name)]
            x.bare_names(scope).contains(name) ==> selector_list_names(list, scope).contains(name),
    decreases list.len(),
{
    let before = list.drop_last();
    let i = choose|i: int| 0 <= i < list.len() && list[i] == SelectorTree::Value(x);
    if i < before.len() {
        assert(before[i] == SelectorTree::Value(x));
        lemma_in_selectors(before, x, scope);
    }
    assert forall|p: PathView|
        #![trigger selector_list_paths(list).contains(p)]
        x.paths().contains(p) implies selector_list_paths(list).contains(p) by {
        lemma_sum_contains(selector_list_paths(before), list.last().paths(), p);
        if i < before.len() {
            assert(selector_list_paths(before).contains(p));
        }
    }
    assert forall|name: Seq<char>|
        #![trigger selector_list_names(list, scope).contains(name)]
        x.bare_names(scope).contains(name) implies selector_list_names(list, scope).contains(
        name,
    ) by {
        lemma_sum_contains(selector_list_names(before, scope), list.last().bare_names(scope), name);
        if i < before.len() {
            assert(selector_list_names(before, scope).contains(name));
        }
    }
}

proof fn lemma_in_globals(list: Seq<GlobalTree>, x: GlobalTree)
    requires
        list.contains(x),
    ensures
        forall|p: PathView|
            #![trigger global_list_paths(list).contains(p)]
            x.paths().contains(p) ==> global_list_paths(list).contains(p),
        forall|name: Seq<char>|
            #![trigger global_list_names(list).contains(name)]
            x.bare_names().contains(name) ==> global_list_names(list).contains(name),
    decreases list.len(),
{
    let before = list.drop_last();
    let i = choose|i: int| 0 <= i < list.len() && list[i] == x;
    if i < before.len() {
        assert(before[i] == x);
        lemma_in_globals(before, x);
    }
    assert forall|p: PathView|
        #![trigger global_list_paths(list).contains(p)]
        x.paths().contains(p) implies global_list_paths(list).contains(p) by {
        lemma_sum_contains(global_list_paths(before), list.last().paths(), p);
        if i < before.len() {
            assert(global_list_paths(before).contains(p));
        }
    }
    assert forall|name: Seq<char>|
        #![trigger global_list_names(list).contains(name)]
        x.bare_names().contains(name) implies global_list_names(list).contains(name) by {
        lemma_sum_contains(global_list_names(before), list.last().bare_names(), name);
        if i < before.len() {
            assert(global_list_names(before).contains(name));
        }
    }
}

proof fn lemma_in_stmts(list: Seq<StmtTree>, x: StmtTree)
    requires
        list.contains(x),
    ensures
        forall|p: PathView|
            #![trigger stmt_list_paths(list).contains(p)]
            x.paths().contains(p) ==> stmt_list_paths(list).contains(p),
    decreases list.len(),
{
    let before = list.drop_last();
    let i = choose|i: int| 0 <= i < list.len() && list[i] == x;
    if i < before.len() {
        assert(before[i] == x);
        lemma_in_stmts(before, x);
    }
    assert forall|p: PathView|
        #![trigger stmt_list_paths(list).contains(p)]
        x.paths().contains(p) implies stmt_list_paths(list).contains(p) by {
        lemma_sum_contains(stmt_list_paths(before), list.last().paths(), p);
        if i < before.len() {
            assert(stmt_list_paths(before).contains(p));
        }
    }
}

/// What no statement declares is not among the names that the list declares.
proof fn lemma_not_declared(list: Seq<StmtTree>, name: Seq<char>)
    requires
        !declares(list, name),
    ensures
        !declared_names(list).contains(name),
    decreases list.len(),
{
    if list.len() > 0 {
        let before = list.drop_last();
        assert(!declares(before, name)) by {
            assert(forall|i: int| 0 <= i < before.len() ==> before[i] == list[i]);
        }
        lemma_not_declared(before, name);
        lemma_sum_contains(declared_names(before), list.last().declared(), name);
        assert(list[list.len() - 1] == list.last());
    }
}

/// Whether a node uses `name` bare wherever it is not in scope.
spec fn uses(node: Node, name: Seq<char>) -> bool {
    forall|scope: Seq<Seq<char>>|
        !scope.contains(name) ==> (#[trigger] node.bare_names(scope)).contains(name)
}

/// A statement that uses a name bare does so in a list that does not declare it.
proof fn lemma_stmts_use(list: Seq<StmtTree>, x: StmtTree, name: Seq<char>, scope: Seq<Seq<char>>)
    requires
        list.contains(x),
        uses(Node::Stmt(x), name),
        !declares(list, name),
        !scope.contains(name),
    ensures
        stmt_list_names(list, scope).contains(name),
    decreases list.len(),
{
    let before = list.drop_last();
    let i = choose|i: int| 0 <= i < list.len() && list[i] == x;
    assert(!declares(before, name)) by {
        assert(forall|i: int| 0 <= i < before.len() ==> before[i] == list[i]);
    }
    let known = scope + declared_names(before);
    lemma_not_declared(before, name);
    lemma_sum_contains(scope, declared_names(before), name);
    lemma_sum_contains(stmt_list_names(before, scope), list.last().bare_names(known), name);
    if i < before.len() {
        assert(before[i] == x);
        lemma_stmts_use(before, x, name, scope);
    } else {
        assert(Node::Stmt(x).bare_names(known).contains(name));
    }
}

proof fn lemma_type_writes(tree: TypeTree, part: Node, p: PathView, scope: Seq<Seq<char>>)
    requires
        Node::Type(tree).holds(part),
        part.paths().contains(p),
    ensures
        tree.paths().contains(p),
{
    broadcast use lemma_sum_contains;

    match part {
        Node::Expr(x) => {
            let list = tree.template_args->Some_0;
            lemma_in_exprs(list, x, scope);
            assert(expr_list_paths(list).contains(p));
        },
        _ => {},
    }
}

proof fn lemma_type_uses(tree: TypeTree, part: Node, name: Seq<char>)
    requires
        Node::Type(tree).holds(part),
        uses(part, name),
        !Node::Type(tree).makes_known(name),
    ensures
        uses(Node::Type(tree), name),
{
    broadcast use lemma_sum_contains;

    assert forall|scope: Seq<Seq<char>>| !scope.contains(name) implies (
    #[trigger] Node::Type(tree).bare_names(scope)).contains(name) by {
        assert(part.bare_names(scope).contains(name));
        match part {
            Node::Expr(x) => {
                let list = tree.template_args->Some_0;
                lemma_in_exprs(list, x, scope);
                assert(expr_list_names(list, scope).contains(name));
            },
            _ => {},
        }
    }
}

proof fn lemma_call_writes(tree: CallTree, part: Node, p: PathView, scope: Seq<Seq<char>>)
    requires
        Node::Call(tree).holds(part),
        part.paths().contains(p),
    ensures
        tree.paths().contains(p),
{
    broadcast use lemma_sum_contains;

    match part {
        Node::Expr(x) => {
            if tree.arguments.contains(x) {
                lemma_in_exprs(tree.arguments, x, scope);
                assert(expr_list_paths(tree.arguments).contains(p));
            }
        },
        _ => {},
    }
}

proof fn lemma_call_uses(tree: CallTree, part: Node, name: Seq<char>)
    requires
        Node::Call(tree).holds(part),
        uses(part, name),
        !Node::Call(tree).makes_known(name),
    ensures
        uses(Node::Call(tree), name),
{
    broadcast use lemma_sum_contains;

    assert forall|scope: Seq<Seq<char>>| !scope.contains(name) implies (
    #[trigger] Node::Call(tree).bare_names(scope)).contains(name) by {
        assert(part.bare_names(scope).contains(name));
        match part {
            Node::Expr(x) => {
                if tree.arguments.contains(x) {
                    lemma_in_exprs(tree.arguments, x, scope);
                    assert(expr_list_names(tree.arguments, scope).contains(name));
                }
            },
            _ => {},
        }
    }
}

proof fn lemma_expr_writes(tree: ExprTree, part: Node, p: PathView, scope: Seq<Seq<char>>)
    requires
        Node::Expr(tree).holds(part),
        part.paths().contains(p),
    ensures
        tree.paths().contains(p),
{
    broadcast use lemma_sum_contains;

}

proof fn lemma_expr_uses(tree: ExprTree, part: Node, name: Seq<char>)
    requires
        Node::Expr(tree).holds(part),
        uses(part, name),
        !Node::Expr(tree).makes_known(name),
    ensures
        uses(Node::Expr(tree), name),
{
    broadcast use lemma_sum_contains;

    assert forall|scope: Seq<Seq<char>>| !scope.contains(name) implies (
    #[trigger] Node::Expr(tree).bare_names(scope)).contains(name) by {
        assert(part.bare_names(scope).contains(name));
    }
}

proof fn lemma_decl_writes(tree: DeclTree, part: Node, p: PathView, scope: Seq<Seq<char>>)
    requires
        Node::Decl(tree).holds(part),
        part.paths().contains(p),
    ensures
        tree.paths().contains(p),
{
    broadcast use lemma_sum_contains;

    match part {
        Node::Expr(x) => {
            if tree.attributes.contains(x) {
                lemma_in_exprs(tree.attributes, x, scope);
                assert(expr_list_paths(tree.attributes).contains(p));
            }
        },
        _ => {},
    }
}

proof fn lemma_decl_uses(tree: DeclTree, part: Node, name: Seq<char>)
    requires
        Node::Decl(tree).holds(part),
        uses(part, name),
        !Node::Decl(tree).makes_known(name),
    ensures
        uses(Node::Decl(tree), name),
{
    broadcast use lemma_sum_contains;

    assert forall|scope: Seq<Seq<char>>| !scope.contains(name) implies (
    #[trigger] Node::Decl(tree).bare_names(scope)).contains(name) by {
        assert(part.bare_names(scope).contains(name));
        match part {
            Node::Expr(x) => {
                if tree.attributes.contains(x) {
                    lemma_in_exprs(tree.attributes, x, scope);
                    assert(expr_list_names(tree.attributes, scope).contains(name));
                }
            },
            _ => {},
        }
    }
}

proof fn lemma_typed_writes(tree: TypedTree, part: Node, p: PathView, scope: Seq<Seq<char>>)
    requires
        Node::Typed(tree).holds(part),
        part.paths().contains(p),
    ensures
        tree.paths().contains(p),
{
    broadcast use lemma_sum_contains;

    match part {
        Node::Expr(x) => {
            if tree.attributes.contains(x) {
                lemma_in_exprs(tree.attributes, x, scope);
                assert(expr_list_paths(tree.attributes).contains(p));
            }
        },
        _ => {},
    }
}

proof fn lemma_typed_uses(tree: TypedTree, part: Node, name: Seq<char>)
    requires
        Node::Typed(tree).holds(part),
        uses(part, name),
        !Node::Typed(tree).makes_known(name),
    ensures
        uses(Node::Typed(tree), name),
{
    broadcast use lemma_sum_contains;

    assert forall|scope: Seq<Seq<char>>| !scope.contains(name) implies (
    #[trigger] Node::Typed(tree).bare_names(scope)).contains(name) by {
        assert(part.bare_names(scope).contains(name));
        match part {
            Node::Expr(x) => {
                if tree.attributes.contains(x) {
                    lemma_in_exprs(tree.attributes, x, scope);
                    assert(expr_list_names(tree.attributes, scope).contains(name));
                }
            },
            _ => {},
        }
    }
}

proof fn lemma_condition_writes(tree: ConditionTree, part: Node, p: PathView, scope: Seq<Seq<char>>)
    requires
        Node::Condition(tree).holds(part),
        part.paths().contains(p),
    ensures
        tree.paths().contains(p),
{
    broadcast use lemma_sum_contains;

    match part {
        Node::Expr(x) => {
            if tree.attributes.contains(x) {
                lemma_in_exprs(tree.attributes, x, scope);
                assert(expr_list_paths(tree.attributes).contains(p));
            }
        },
        _ => {},
    }
}

proof fn lemma_condition_uses(tree: ConditionTree, part: Node, name: Seq<char>)
    requires
        Node::Condition(tree).holds(part),
        uses(part, name),
        !Node::Condition(tree).makes_known(name),
    ensures
        uses(Node::Condition(tree), name),
{
    broadcast use lemma_sum_contains;

    assert forall|scope: Seq<Seq<char>>| !scope.contains(name) implies (
    #[trigger] Node::Condition(tree).bare_names(scope)).contains(name) by {
        assert(part.bare_names(scope).contains(name));
        match part {
            Node::Expr(x) => {
                if tree.attributes.contains(x) {
                    lemma_in_exprs(tree.attributes, x, scope);
                    assert(expr_list_names(tree.attributes, scope).contains(name));
                }
            },
            _ => {},
        }
    }
}

proof fn lemma_plain_writes(tree: PlainTree, part: Node, p: PathView, scope: Seq<Seq<char>>)
    requires
        Node::Plain(tree).holds(part),
        part.paths().contains(p),
    ensures
        tree.paths().contains(p),
{
    broadcast use lemma_sum_contains;

    if let Node::Expr(x) = part {
        if tree.attributes.contains(x) {
            lemma_in_exprs(tree.attributes, x, scope);
        }
    }
}

proof fn lemma_plain_uses(tree: PlainTree, part: Node, name: Seq<char>)
    requires
        Node::Plain(tree).holds(part),
        uses(part, name),
        !Node::Plain(tree).makes_known(name),
    ensures
        uses(Node::Plain(tree), name),
{
    broadcast use lemma_sum_contains;

    assert forall|scope: Seq<Seq<char>>| !scope.contains(name) implies (
    #[trigger] Node::Plain(tree).bare_names(scope)).contains(name) by {
        assert(part.bare_names(scope).contains(name));
        if let Node::Expr(x) = part {
            if tree.attributes.contains(x) {
                lemma_in_exprs(tree.attributes, x, scope);
            }
        }
    }
}

proof fn lemma_stmt_writes(tree: StmtTree, part: Node, p: PathView, scope: Seq<Seq<char>>)
    requires
        Node::Stmt(tree).holds(part),
        part.paths().contains(p),
    ensures
        tree.paths().contains(p),
{
    broadcast use lemma_sum_contains;

}

proof fn lemma_stmt_uses(tree: StmtTree, part: Node, name: Seq<char>)
    requires
        Node::Stmt(tree).holds(part),
        uses(part, name),
        !Node::Stmt(tree).makes_known(name),
    ensures
        uses(Node::Stmt(tree), name),
{
    broadcast use lemma_sum_contains;

    assert forall|scope: Seq<Seq<char>>| !scope.contains(name) implies (
    #[trigger] Node::Stmt(tree).bare_names(scope)).contains(name) by {
        assert(part.bare_names(scope).contains(name));
    }
}

proof fn lemma_block_writes(tree: BlockTree, part: Node, p: PathView, scope: Seq<Seq<char>>)
    requires
        Node::Block(tree).holds(part),
        part.paths().contains(p),
    ensures
        tree.paths().contains(p),
{
    broadcast use lemma_sum_contains;

    match part {
        Node::Expr(x) => {
            if tree.attributes.contains(x) {
                lemma_in_exprs(tree.attributes, x, scope);
                assert(expr_list_paths(tree.attributes).contains(p));
            }
        },
        Node::Stmt(x) => {
            lemma_in_stmts(tree.statements, x);
            assert(stmt_list_paths(tree.statements).contains(p));
        },
        _ => {},
    }
}

proof fn lemma_block_uses(tree: BlockTree, part: Node, name: Seq<char>)
    requires
        Node::Block(tree).holds(part),
        uses(part, name),
        !Node::Block(tree).makes_known(name),
    ensures
        uses(Node::Block(tree), name),
{
    broadcast use lemma_sum_contains;

    assert forall|scope: Seq<Seq<char>>| !scope.contains(name) implies (
    #[trigger] Node::Block(tree).bare_names(scope)).contains(name) by {
        assert(part.bare_names(scope).contains(name));
        match part {
            Node::Expr(x) => {
                if tree.attributes.contains(x) {
                    lemma_in_exprs(tree.attributes, x, scope);
                    assert(expr_list_names(tree.attributes, scope).contains(name));
                }
            },
            Node::Stmt(x) => {
                lemma_stmts_use(tree.statements, x, name, scope);
            },
            _ => {},
        }
    }
}

proof fn lemma_branch_writes(tree: BranchTree, part: Node, p: PathView, scope: Seq<Seq<char>>)
    requires
        Node::Branch(tree).holds(part),
        part.paths().contains(p),
    ensures
        tree.paths().contains(p),
{
    broadcast use lemma_sum_contains;

    match part {
        Node::Expr(x) => {
            if tree.attributes.contains(x) {
                lemma_in_exprs(tree.attributes, x, scope);
                assert(expr_list_paths(tree.attributes).contains(p));
            }
        },
        _ => {},
    }
}

proof fn lemma_branch_uses(tree: BranchTree, part: Node, name: Seq<char>)
    requires
        Node::Branch(tree).holds(part),
        uses(part, name),
        !Node::Branch(tree).makes_known(name),
    ensures
        uses(Node::Branch(tree), name),
{
    broadcast use lemma_sum_contains;

    assert forall|scope: Seq<Seq<char>>| !scope.contains(name) implies (
    #[trigger] Node::Branch(tree).bare_names(scope)).contains(name) by {
        assert(part.bare_names(scope).contains(name));
        match part {
            Node::Expr(x) => {
                if tree.attributes.contains(x) {
                    lemma_in_exprs(tree.attributes, x, scope);
                    assert(expr_list_names(tree.attributes, scope).contains(name));
                }
            },
            _ => {},
        }
    }
}

proof fn lemma_if_writes(tree: IfTree, part: Node, p: PathView, scope: Seq<Seq<char>>)
    requires
        Node::If(tree).holds(part),
        part.paths().contains(p),
    ensures
        tree.paths().contains(p),
{
    broadcast use lemma_sum_contains;

    match part {
        Node::Branch(x) => {
            if tree.else_ifs.contains(x) {
                lemma_in_branches(tree.else_ifs, x, scope);
                assert(branch_list_paths(tree.else_ifs).contains(p));
            }
        },
        _ => {},
    }
}

proof fn lemma_if_uses(tree: IfTree, part: Node, name: Seq<char>)
    requires
        Node::If(tree).holds(part),
        uses(part, name),
        !Node::If(tree).makes_known(name),
    ensures
        uses(Node::If(tree), name),
{
    broadcast use lemma_sum_contains;

    assert forall|scope: Seq<Seq<char>>| !scope.contains(name) implies (
    #[trigger] Node::If(tree).bare_names(scope)).contains(name) by {
        assert(part.bare_names(scope).contains(name));
        match part {
            Node::Branch(x) => {
                if tree.else_ifs.contains(x) {
                    lemma_in_branches(tree.else_ifs, x, scope);
                    assert(branch_list_names(tree.else_ifs, scope).contains(name));
                }
            },
            _ => {},
        }
    }
}

proof fn lemma_else_writes(tree: ElseTree, part: Node, p: PathView, scope: Seq<Seq<char>>)
    requires
        Node::Else(tree).holds(part),
        part.paths().contains(p),
    ensures
        tree.paths().contains(p),
{
    broadcast use lemma_sum_contains;

    match part {
        Node::Expr(x) => {
            if tree.attributes.contains(x) {
                lemma_in_exprs(tree.attributes, x, scope);
                assert(expr_list_paths(tree.attributes).contains(p));
            }
        },
        _ => {},
    }
}

proof fn lemma_else_uses(tree: ElseTree, part: Node, name: Seq<char>)
    requires
        Node::Else(tree).holds(part),
        uses(part, name),
        !Node::Else(tree).makes_known(name),
    ensures
        uses(Node::Else(tree), name),
{
    broadcast use lemma_sum_contains;

    assert forall|scope: Seq<Seq<char>>| !scope.contains(name) implies (
    #[trigger] Node::Else(tree).bare_names(scope)).contains(name) by {
        assert(part.bare_names(scope).contains(name));
        match part {
            Node::Expr(x) => {
                if tree.attributes.contains(x) {
                    lemma_in_exprs(tree.attributes, x, scope);
                    assert(expr_list_names(tree.attributes, scope).contains(name));
                }
            },
            _ => {},
        }
    }
}

proof fn lemma_switch_writes(tree: SwitchTree, part: Node, p: PathView, scope: Seq<Seq<char>>)
    requires
        Node::Switch(tree).holds(part),
        part.paths().contains(p),
    ensures
        tree.paths().contains(p),
{
    broadcast use lemma_sum_contains;

    match part {
        Node::Expr(x) => {
            if tree.attributes.contains(x) {
                lemma_in_exprs(tree.attributes, x, scope);
                assert(expr_list_paths(tree.attributes).contains(p));
            }
            if tree.body_attributes.contains(x) {
                lemma_in_exprs(tree.body_attributes, x, scope);
                assert(expr_list_paths(tree.body_attributes).contains(p));
            }
        },
        Node::Case(x) => {
            if tree.cases.contains(x) {
                lemma_in_cases(tree.cases, x, scope);
                assert(case_list_paths(tree.cases).contains(p));
            }
        },
        _ => {},
    }
}

proof fn lemma_switch_uses(tree: SwitchTree, part: Node, name: Seq<char>)
    requires
        Node::Switch(tree).holds(part),
        uses(part, name),
        !Node::Switch(tree).makes_known(name),
    ensures
        uses(Node::Switch(tree), name),
{
    broadcast use lemma_sum_contains;

    assert forall|scope: Seq<Seq<char>>| !scope.contains(name) implies (
    #[trigger] Node::Switch(tree).bare_names(scope)).contains(name) by {
        assert(part.bare_names(scope).contains(name));
        match part {
            Node::Expr(x) => {
                if tree.attributes.contains(x) {
                    lemma_in_exprs(tree.attributes, x, scope);
                    assert(expr_list_names(tree.attributes, scope).contains(name));
                }
                if tree.body_attributes.contains(x) {
                    lemma_in_exprs(tree.body_attributes, x, scope);
                    assert(expr_list_names(tree.body_attributes, scope).contains(name));
                }
            },
            Node::Case(x) => {
                if tree.cases.contains(x) {
                    lemma_in_cases(tree.cases, x, scope);
                    assert(case_list_names(tree.cases, scope).contains(name));
                }
            },
            _ => {},
        }
    }
}

proof fn lemma_case_writes(tree: CaseTree, part: Node, p: PathView, scope: Seq<Seq<char>>)
    requires
        Node::Case(tree).holds(part),
        part.paths().contains(p),
    ensures
        tree.paths().contains(p),
{
    broadcast use lemma_sum_contains;

    match part {
        Node::Expr(x) => {
            if tree.attributes.contains(x) {
                lemma_in_exprs(tree.attributes, x, scope);
                assert(expr_list_paths(tree.attributes).contains(p));
            }
            if tree.selectors.contains(SelectorTree::Value(x)) {
                lemma_in_selectors(tree.selectors, x, scope);
                assert(selector_list_paths(tree.selectors).contains(p));
            }
        },
        _ => {},
    }
}

proof fn lemma_case_uses(tree: CaseTree, part: Node, name: Seq<char>)
    requires
        Node::Case(tree).holds(part),
        uses(part, name),
        !Node::Case(tree).makes_known(name),
    ensures
        uses(Node::Case(tree), name),
{
    broadcast use lemma_sum_contains;

    assert forall|scope: Seq<Seq<char>>| !scope.contains(name) implies (
    #[trigger] Node::Case(tree).bare_names(scope)).contains(name) by {
        assert(part.bare_names(scope).contains(name));
        match part {
            Node::Expr(x) => {
                if tree.attributes.contains(x) {
                    lemma_in_exprs(tree.attributes, x, scope);
                    assert(expr_list_names(tree.attributes, scope).contains(name));
                }
                if tree.selectors.contains(SelectorTree::Value(x)) {
                    lemma_in_selectors(tree.selectors, x, scope);
                    assert(selector_list_names(tree.selectors, scope).contains(name));
                }
            },
            _ => {},
        }
    }
}

proof fn lemma_loop_writes(tree: LoopTree, part: Node, p: PathView, scope: Seq<Seq<char>>)
    requires
        Node::Loop(tree).holds(part),
        part.paths().contains(p),
    ensures
        tree.paths().contains(p),
{
    broadcast use lemma_sum_contains;

    match part {
        Node::Expr(x) => {
            if tree.attributes.contains(x) {
                lemma_in_exprs(tree.attributes, x, scope);
                assert(expr_list_paths(tree.attributes).contains(p));
            }
        },
        _ => {},
    }
}

proof fn lemma_loop_uses(tree: LoopTree, part: Node, name: Seq<char>)
    requires
        Node::Loop(tree).holds(part),
        uses(part, name),
        !Node::Loop(tree).makes_known(name),
    ensures
        uses(Node::Loop(tree), name),
{
    broadcast use lemma_sum_contains;

    assert forall|scope: Seq<Seq<char>>| !scope.contains(name) implies (
    #[trigger] Node::Loop(tree).bare_names(scope)).contains(name) by {
        assert(part.bare_names(scope).contains(name));
        match part {
            Node::Expr(x) => {
                if tree.attributes.contains(x) {
                    lemma_in_exprs(tree.attributes, x, scope);
                    assert(expr_list_names(tree.attributes, scope).contains(name));
                }
            },
            Node::Continuing(x) => {
                lemma_not_declared(tree.body.statements, name);
                let known = scope + declared_names(tree.body.statements);
                assert(part.bare_names(known).contains(name));
            },
            _ => {},
        }
    }
}

proof fn lemma_continuing_writes(
    tree: ContinuingTree,
    part: Node,
    p: PathView,
    scope: Seq<Seq<char>>,
)
    requires
        Node::Continuing(tree).holds(part),
        part.paths().contains(p),
    ensures
        tree.paths().contains(p),
{
    broadcast use lemma_sum_contains;

    match part {
        Node::Expr(x) => {
            if tree.attributes.contains(x) {
                lemma_in_exprs(tree.attributes, x, scope);
                assert(expr_list_paths(tree.attributes).contains(p));
            }
        },
        _ => {},
    }
}

proof fn lemma_continuing_uses(tree: ContinuingTree, part: Node, name: Seq<char>)
    requires
        Node::Continuing(tree).holds(part),
        uses(part, name),
        !Node::Continuing(tree).makes_known(name),
    ensures
        uses(Node::Continuing(tree), name),
{
    broadcast use lemma_sum_contains;

    assert forall|scope: Seq<Seq<char>>| !scope.contains(name) implies (
    #[trigger] Node::Continuing(tree).bare_names(scope)).contains(name) by {
        assert(part.bare_names(scope).contains(name));
        match part {
            Node::Expr(x) => {
                if tree.attributes.contains(x) {
                    lemma_in_exprs(tree.attributes, x, scope);
                    assert(expr_list_names(tree.attributes, scope).contains(name));
                }
            },
            Node::Condition(x) => {
                lemma_not_declared(tree.body.statements, name);
                let known = scope + declared_names(tree.body.statements);
                assert(part.bare_names(known).contains(name));
            },
            _ => {},
        }
    }
}

proof fn lemma_for_writes(tree: ForTree, part: Node, p: PathView, scope: Seq<Seq<char>>)
    requires
        Node::For(tree).holds(part),
        part.paths().contains(p),
    ensures
        tree.paths().contains(p),
{
    broadcast use lemma_sum_contains;

    match part {
        Node::Expr(x) => {
            if tree.attributes.contains(x) {
                lemma_in_exprs(tree.attributes, x, scope);
                assert(expr_list_paths(tree.attributes).contains(p));
            }
        },
        _ => {},
    }
}

proof fn lemma_for_uses(tree: ForTree, part: Node, name: Seq<char>)
    requires
        Node::For(tree).holds(part),
        uses(part, name),
        !Node::For(tree).makes_known(name),
    ensures
        uses(Node::For(tree), name),
{
    broadcast use lemma_sum_contains;

    assert forall|scope: Seq<Seq<char>>| !scope.contains(name) implies (
    #[trigger] Node::For(tree).bare_names(scope)).contains(name) by {
        assert(part.bare_names(scope).contains(name));
        let known = match tree.initializer {
            Some(s) => s.declared(),
            None => Seq::empty(),
        };
        let within = match tree.initializer {
            Some(s) => scope + s.declared(),
            None => scope,
        };
        assert(!known.contains(name)) by {
            if let Some(s) = tree.initializer {
                assert(seq![*s][0] == *s);
            }
        }
        assert(!within.contains(name));
        assert(part.bare_names(within).contains(name));
        match part {
            Node::Expr(x) => {
                if tree.attributes.contains(x) {
                    lemma_in_exprs(tree.attributes, x, scope);
                    assert(expr_list_names(tree.attributes, scope).contains(name));
                }
            },
            _ => {},
        }
    }
}

proof fn lemma_struct_writes(tree: StructTree, part: Node, p: PathView, scope: Seq<Seq<char>>)
    requires
        Node::Struct(tree).holds(part),
        part.paths().contains(p),
    ensures
        tree.paths().contains(p),
{
    broadcast use lemma_sum_contains;

    match part {
        Node::Expr(x) => {
            if tree.attributes.contains(x) {
                lemma_in_exprs(tree.attributes, x, Seq::empty());
                assert(expr_list_paths(tree.attributes).contains(p));
            }
        },
        Node::Typed(x) => {
            if tree.members.contains(x) {
                lemma_in_typed_names(tree.members, x, Seq::empty());
                assert(typed_list_paths(tree.members).contains(p));
            }
        },
        _ => {},
    }
}

proof fn lemma_struct_uses(tree: StructTree, part: Node, name: Seq<char>)
    requires
        Node::Struct(tree).holds(part),
        uses(part, name),
        !Node::Struct(tree).makes_known(name),
    ensures
        uses(Node::Struct(tree), name),
{
    broadcast use lemma_sum_contains;

    assert forall|scope: Seq<Seq<char>>| !scope.contains(name) implies (
    #[trigger] Node::Struct(tree).bare_names(scope)).contains(name) by {
        assert(part.bare_names(scope).contains(name));
        assert(part.bare_names(Seq::empty()).contains(name));
        match part {
            Node::Expr(x) => {
                if tree.attributes.contains(x) {
                    lemma_in_exprs(tree.attributes, x, Seq::empty());
                    assert(expr_list_names(tree.attributes, Seq::empty()).contains(name));
                }
            },
            Node::Typed(x) => {
                if tree.members.contains(x) {
                    lemma_in_typed_names(tree.members, x, Seq::empty());
                    assert(typed_list_names(tree.members, Seq::empty()).contains(name));
                }
            },
            _ => {},
        }
    }
}

proof fn lemma_function_writes(tree: FunctionTree, part: Node, p: PathView, scope: Seq<Seq<char>>)
    requires
        Node::Function(tree).holds(part),
        part.paths().contains(p),
    ensures
        tree.paths().contains(p),
{
    broadcast use lemma_sum_contains;

    match part {
        Node::Expr(x) => {
            if tree.attributes.contains(x) {
                lemma_in_exprs(tree.attributes, x, Seq::empty());
                assert(expr_list_paths(tree.attributes).contains(p));
            }
            if tree.return_attributes.contains(x) {
                lemma_in_exprs(tree.return_attributes, x, Seq::empty());
                assert(expr_list_paths(tree.return_attributes).contains(p));
            }
        },
        Node::Typed(x) => {
            if tree.parameters.contains(x) {
                lemma_in_typed_names(tree.parameters, x, Seq::empty());
                assert(typed_list_paths(tree.parameters).contains(p));
            }
        },
        _ => {},
    }
}

proof fn lemma_function_uses(tree: FunctionTree, part: Node, name: Seq<char>)
    requires
        Node::Function(tree).holds(part),
        uses(part, name),
        !Node::Function(tree).makes_known(name),
    ensures
        uses(Node::Function(tree), name),
{
    broadcast use lemma_sum_contains;

    assert forall|scope: Seq<Seq<char>>| !scope.contains(name) implies (
    #[trigger] Node::Function(tree).bare_names(scope)).contains(name) by {
        assert(part.bare_names(scope).contains(name));
        assert(part.bare_names(Seq::empty()).contains(name));
        match part {
            Node::Expr(x) => {
                if tree.attributes.contains(x) {
                    lemma_in_exprs(tree.attributes, x, Seq::empty());
                    assert(expr_list_names(tree.attributes, Seq::empty()).contains(name));
                }
                if tree.return_attributes.contains(x) {
                    lemma_in_exprs(tree.return_attributes, x, Seq::empty());
                    assert(expr_list_names(tree.return_attributes, Seq::empty()).contains(name));
                }
            },
            Node::Typed(x) => {
                if tree.parameters.contains(x) {
                    lemma_in_typed_names(tree.parameters, x, Seq::empty());
                    assert(typed_list_names(tree.parameters, Seq::empty()).contains(name));
                }
            },
            Node::Block(x) => {
                let known = parameter_names(tree.parameters);
                assert(!known.contains(name));
                assert(part.bare_names(known).contains(name));
                lemma_exprs_scope(x.attributes, known, Seq::empty(), name);
                assert(known + Seq::<Seq<char>>::empty() == known);
            },
            _ => {},
        }
    }
}

proof fn lemma_global_writes(tree: GlobalTree, part: Node, p: PathView, scope: Seq<Seq<char>>)
    requires
        Node::Global(tree).holds(part),
        part.paths().contains(p),
    ensures
        tree.paths().contains(p),
{
    broadcast use lemma_sum_contains;

}

proof fn lemma_global_uses(tree: GlobalTree, part: Node, name: Seq<char>)
    requires
        Node::Global(tree).holds(part),
        uses(part, name),
        !Node::Global(tree).makes_known(name),
    ensures
        uses(Node::Global(tree), name),
{
    broadcast use lemma_sum_contains;

    assert forall|scope: Seq<Seq<char>>| !scope.contains(name) implies (
    #[trigger] Node::Global(tree).bare_names(scope)).contains(name) by {
        assert(part.bare_names(scope).contains(name));
        assert(part.bare_names(Seq::empty()).contains(name));
    }
}

proof fn lemma_unit_writes(tree: UnitTree, part: Node, p: PathView, scope: Seq<Seq<char>>)
    requires
        Node::Unit(tree).holds(part),
        part.paths().contains(p),
    ensures
        tree.paths().contains(p),
{
    broadcast use lemma_sum_contains;

    match part {
        Node::Global(x) => {
            if tree.declarations.contains(x) {
                lemma_in_globals(tree.declarations, x);
                assert(global_list_paths(tree.declarations).contains(p));
            }
        },
        _ => {},
    }
}

proof fn lemma_unit_uses(tree: UnitTree, part: Node, name: Seq<char>)
    requires
        Node::Unit(tree).holds(part),
        uses(part, name),
        !Node::Unit(tree).makes_known(name),
    ensures
        uses(Node::Unit(tree), name),
{
    broadcast use lemma_sum_contains;

    assert forall|scope: Seq<Seq<char>>| !scope.contains(name) implies (
    #[trigger] Node::Unit(tree).bare_names(scope)).contains(name) by {
        assert(part.bare_names(scope).contains(name));
        match part {
            Node::Global(x) => {
                if tree.declarations.contains(x) {
                    lemma_in_globals(tree.declarations, x);
                    assert(global_list_names(tree.declarations).contains(name));
                }
            },
            _ => {},
        }
    }
}

proof fn lemma_holder_writes(node: Node, part: Node, p: PathView)
    requires
        node.holds(part),
        part.paths().contains(p),
    ensures
        node.paths().contains(p),
{
    match node {
        Node::Type(tree) => lemma_type_writes(tree, part, p, Seq::empty()),
        Node::Call(tree) => lemma_call_writes(tree, part, p, Seq::empty()),
        Node::Expr(tree) => lemma_expr_writes(tree, part, p, Seq::empty()),
        Node::Decl(tree) => lemma_decl_writes(tree, part, p, Seq::empty()),
        Node::Typed(tree) => lemma_typed_writes(tree, part, p, Seq::empty()),
        Node::Condition(tree) => lemma_condition_writes(tree, part, p, Seq::empty()),
        Node::Plain(tree) => lemma_plain_writes(tree, part, p, Seq::empty()),
        Node::Stmt(tree) => lemma_stmt_writes(tree, part, p, Seq::empty()),
        Node::Block(tree) => lemma_block_writes(tree, part, p, Seq::empty()),
        Node::Branch(tree) => lemma_branch_writes(tree, part, p, Seq::empty()),
        Node::If(tree) => lemma_if_writes(tree, part, p, Seq::empty()),
        Node::Else(tree) => lemma_else_writes(tree, part, p, Seq::empty()),
        Node::Switch(tree) => lemma_switch_writes(tree, part, p, Seq::empty()),
        Node::Case(tree) => lemma_case_writes(tree, part, p, Seq::empty()),
        Node::Loop(tree) => lemma_loop_writes(tree, part, p, Seq::empty()),
        Node::Continuing(tree) => lemma_continuing_writes(tree, part, p, Seq::empty()),
        Node::For(tree) => lemma_for_writes(tree, part, p, Seq::empty()),
        Node::Struct(tree) => lemma_struct_writes(tree, part, p, Seq::empty()),
        Node::Function(tree) => lemma_function_writes(tree, part, p, Seq::empty()),
        Node::Global(tree) => lemma_global_writes(tree, part, p, Seq::empty()),
        Node::Unit(tree) => lemma_unit_writes(tree, part, p, Seq::empty()),
    }
}

proof fn lemma_holder_uses(node: Node, part: Node, name: Seq<char>)
    requires
        node.holds(part),
        uses(part, name),
        !node.makes_known(name),
    ensures
        uses(node, name),
{
    match node {
        Node::Type(tree) => lemma_type_uses(tree, part, name),
        Node::Call(tree) => lemma_call_uses(tree, part, name),
        Node::Expr(tree) => lemma_expr_uses(tree, part, name),
        Node::Decl(tree) => lemma_decl_uses(tree, part, name),
        Node::Typed(tree) => lemma_typed_uses(tree, part, name),
        Node::Condition(tree) => lemma_condition_uses(tree, part, name),
        Node::Plain(tree) => lemma_plain_uses(tree, part, name),
        Node::Stmt(tree) => lemma_stmt_uses(tree, part, name),
        Node::Block(tree) => lemma_block_uses(tree, part, name),
        Node::Branch(tree) => lemma_branch_uses(tree, part, name),
        Node::If(tree) => lemma_if_uses(tree, part, name),
        Node::Else(tree) => lemma_else_uses(tree, part, name),
        Node::Switch(tree) => lemma_switch_uses(tree, part, name),
        Node::Case(tree) => lemma_case_uses(tree, part, name),
        Node::Loop(tree) => lemma_loop_uses(tree, part, name),
        Node::Continuing(tree) => lemma_continuing_uses(tree, part, name),
        Node::For(tree) => lemma_for_uses(tree, part, name),
        Node::Struct(tree) => lemma_struct_uses(tree, part, name),
        Node::Function(tree) => lemma_function_uses(tree, part, name),
        Node::Global(tree) => lemma_global_uses(tree, part, name),
        Node::Unit(tree) => lemma_unit_uses(tree, part, name),
    }
}

/// What the last node of a chain writes is written in its first.
proof fn lemma_chain_writes(chain: Seq<Node>, p: PathView)
    requires
        chain.len() > 0,
        leads_down(chain),
        chain.last().paths().contains(p),
    ensures
        chain[0].paths().contains(p),
    decreases chain.len(),
{
    if chain.len() > 1 {
        let before = chain.drop_last();
        assert(chain[chain.len() - 2].holds(chain[chain.len() - 1]));
        lemma_holder_writes(before.last(), chain.last(), p);
        assert(leads_down(before)) by {
            assert forall|i: int| 0 < i < before.len() implies before[i - 1].holds(
                #[trigger] before[i],
            ) by {
                assert(chain[i - 1].holds(chain[i]));
            }
        }
        lemma_chain_writes(before, p);
    }
}

/// What the last node of a chain uses bare is used bare in its first, unless a node between makes
/// it known.
proof fn lemma_chain_uses(chain: Seq<Node>, name: Seq<char>)
    requires
        chain.len() > 0,
        leads_down(chain),
        uses(chain.last(), name),
        forall|i: int| 0 <= i < chain.len() ==> !(#[trigger] chain[i]).makes_known(name),
    ensures
        uses(chain[0], name),
    decreases chain.len(),
{
    if chain.len() > 1 {
        let before = chain.drop_last();
        assert(chain[chain.len() - 2].holds(chain[chain.len() - 1]));
        assert(!chain[chain.len() - 2].makes_known(name));
        lemma_holder_uses(before.last(), chain.last(), name);
        assert(leads_down(before)) by {
            assert forall|i: int| 0 < i < before.len() implies before[i - 1].holds(
                #[trigger] before[i],
            ) by {
                assert(chain[i - 1].holds(chain[i]));
            }
        }
        assert forall|i: int| 0 <= i < before.len() implies !(#[trigger] before[i]).makes_known(
            name,
        ) by {
            assert(before[i] == chain[i]);
        }
        lemma_chain_uses(before, name);
    }
}

/// Each path that is written anywhere in a source is among the paths at its use sites: wherever a
/// type expression stands, below whatever statements and operators, its path is found.
pub proof fn law_every_written_path_is_found(unit: UnitTree, ty: TypeTree, chain: Seq<Node>)
    requires
        chain.len() > 0,
        chain[0] == Node::Unit(unit),
        leads_down(chain),
        chain.last() == Node::Type(ty),
        ty.path is Some,
    ensures
        unit.paths().contains(ty.path->Some_0),
{
    let p = ty.path->Some_0;
    assert(ty.paths()[0] == p);
    lemma_chain_writes(chain, p);
}

/// Each name that stands anywhere in a source without a path is among the names that are used bare,
/// unless it is made known on the way there.
pub proof fn law_every_bare_name_is_found(unit: UnitTree, ty: TypeTree, chain: Seq<Node>)
    requires
        chain.len() > 0,
        chain[0] == Node::Unit(unit),
        leads_down(chain),
        chain.last() == Node::Type(ty),
        ty.path is None,
        forall|i: int| 0 <= i < chain.len() ==> !(#[trigger] chain[i]).makes_known(ty.name),
    ensures
        unit.bare_names().contains(ty.name),
{
    assert forall|scope: Seq<Seq<char>>| !scope.contains(ty.name) implies (
    #[trigger] Node::Type(ty).bare_names(scope)).contains(ty.name) by {
        assert(ty.bare_names(scope)[0] == ty.name);
    }
    lemma_chain_uses(chain, ty.name);
    assert(Node::Unit(unit).bare_names(Seq::empty()).contains(ty.name));
}

/// Whatever stands right below a part of a source contributes all that it writes: each operand,
/// each argument, each statement of a block, each branch of an `if`, each case of a `switch`.
pub proof fn law_no_part_is_passed_over(
    block: BlockTree,
    tree: IfTree,
    cases: SwitchTree,
    call: CallTree,
    i: int,
    p: PathView,
)
    ensures
        0 <= i < block.statements.len() && block.statements[i].paths().contains(p)
            ==> block.paths().contains(p),
        tree.first.paths().contains(p) ==> tree.paths().contains(p),
        0 <= i < tree.else_ifs.len() && tree.else_ifs[i].paths().contains(p)
            ==> tree.paths().contains(p),
        tree.otherwise matches Some(branch) && branch.paths().contains(p) ==> tree.paths().contains(
            p,
        ),
        0 <= i < cases.cases.len() && cases.cases[i].paths().contains(p) ==> cases.paths().contains(
            p,
        ),
        0 <= i < call.arguments.len() && call.arguments[i].paths().contains(p)
            ==> call.paths().contains(p),
{
    let none = Seq::empty();
    if 0 <= i < block.statements.len() && block.statements[i].paths().contains(p) {
        lemma_block_writes(block, Node::Stmt(block.statements[i]), p, none);
    }
    if tree.first.paths().contains(p) {
        lemma_if_writes(tree, Node::Branch(tree.first), p, none);
    }
    if 0 <= i < tree.else_ifs.len() && tree.else_ifs[i].paths().contains(p) {
        lemma_if_writes(tree, Node::Branch(tree.else_ifs[i]), p, none);
    }
    if let Some(branch) = tree.otherwise {
        if branch.paths().contains(p) {
            lemma_if_writes(tree, Node::Else(branch), p, none);
        }
    }
    if 0 <= i < cases.cases.len() && cases.cases[i].paths().contains(p) {
        lemma_switch_writes(cases, Node::Case(cases.cases[i]), p, none);
    }
    if 0 <= i < call.arguments.len() && call.arguments[i].paths().contains(p) {
        lemma_call_writes(call, Node::Expr(call.arguments[i]), p, none);
    }
}

}
