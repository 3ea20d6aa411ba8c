//! The module paths that a source writes at its use sites, such as the `color` of `color::TINT`
//! or the `super::file` of `super::file::item()`.

use vstd::prelude::*;

use crate::path::{PathView, WeslPath};
use crate::syntax::{
    branch_trees, case_trees, expr_trees, global_trees, optional_expr,
    optional_type, selector_trees, stmt_trees, typed_trees, Action, ActionTree, Block, BlockTree,
    Branch, BranchTree, CallExpr, CallTree, CaseTree, Condition, ConditionTree, Continuing,
    ContinuingTree, Decl, DeclTree, ElseBranch, ElseTree, Expr, ExprTree, ForStmt, ForTree,
    FunctionDecl, FunctionTree, GlobalDecl, GlobalTree, IfStmt, IfTree, LoopStmt, LoopTree,
    PlainStmt, PlainTree, Selector, SelectorTree, Stmt, StmtTree, StructDecl, StructTree,
    SwitchCase, SwitchStmt, SwitchTree, TypeExpr, TypeTree, TypedName, TypedTree, Unit, UnitTree,
};

verus! {

/// What each borrowed path of a list says.
pub open spec fn shown_paths(list: Seq<&WeslPath>) -> Seq<PathView> {
    list.map_values(|p: &WeslPath| p@)
}

impl TypeTree {
    /// The path in front of the name, then those in the template arguments.
    pub open spec fn paths(self) -> Seq<PathView>
        decreases self,
    {
        let own = match self.path {
            Some(path) => seq![path],
            None => Seq::empty(),
        };
        match self.template_args {
            Some(args) => own + expr_list_paths(args),
            None => own,
        }
    }
}

impl CallTree {
    pub open spec fn paths(self) -> Seq<PathView>
        decreases self,
    {
        self.ty.paths() + expr_list_paths(self.arguments)
    }
}

impl ExprTree {
    /// The paths in an expression, from left to right.
    pub open spec fn paths(self) -> Seq<PathView>
        decreases self,
    {
        match self {
            ExprTree::Literal => Seq::empty(),
            ExprTree::Parenthesized(e) => e.paths(),
            ExprTree::NamedComponent(base) => base.paths(),
            ExprTree::Indexing(base, index) => base.paths() + index.paths(),
            ExprTree::Unary(operand) => operand.paths(),
            ExprTree::Binary(left, right) => left.paths() + right.paths(),
            ExprTree::Call(call) => call.paths(),
            ExprTree::Type(ty) => ty.paths(),
        }
    }
}

/// The paths in a list of expressions, in order.
pub open spec fn expr_list_paths(list: Seq<ExprTree>) -> Seq<PathView>
    decreases list,
{
    if list.len() == 0 {
        Seq::empty()
    } else {
        expr_list_paths(list.drop_last()) + list.last().paths()
    }
}

/// The paths in an expression, where there is one.
pub open spec fn optional_expr_paths(expr: Option<ExprTree>) -> Seq<PathView> {
    match expr {
        Some(e) => e.paths(),
        None => Seq::empty(),
    }
}

fn visit_type<'a>(ty: &'a TypeExpr, out: &mut Vec<&'a WeslPath>)
    ensures
        shown_paths(final(out)@) == shown_paths(old(out)@) + ty.tree().paths(),
    decreases ty,
{
    let ghost start = shown_paths(out@);
    match &ty.path {
        Some(path) => {
            out.push(path);
            assert(shown_paths(out@) == start + seq![path@]);
        },
        None => {},
    }
    match &ty.template_args {
        Some(args) => visit_exprs(args, out),
        None => {},
    }
}

fn visit_exprs<'a>(list: &'a Vec<Expr>, out: &mut Vec<&'a WeslPath>)
    ensures
        shown_paths(final(out)@) == shown_paths(old(out)@) + expr_list_paths(expr_trees(list@)),
    decreases list,
{
    let ghost start = shown_paths(out@);
    let ghost trees = expr_trees(list@);
    let mut i: usize = 0;
    while i < list.len()
        invariant
            i <= list.len(),
            trees == expr_trees(list@),
            shown_paths(out@) == start + expr_list_paths(trees.take(i as int)),
        decreases list.len() - i,
    {
        assert(trees.take(i + 1).drop_last() == trees.take(i as int));
        assert(decreases_to!(list => list@[i as int]));
        visit_expr(&list[i], out);
        i += 1;
    }
    assert(trees.take(trees.len() as int) == trees);
}

fn visit_call<'a>(call: &'a CallExpr, out: &mut Vec<&'a WeslPath>)
    ensures
        shown_paths(final(out)@) == shown_paths(old(out)@) + call.tree().paths(),
    decreases call,
{
    visit_type(&call.ty, out);
    visit_exprs(&call.arguments, out);
}

fn visit_expr<'a>(expr: &'a Expr, out: &mut Vec<&'a WeslPath>)
    ensures
        shown_paths(final(out)@) == shown_paths(old(out)@) + expr.tree().paths(),
    decreases expr,
{
    match expr {
        Expr::Literal => {},
        Expr::Parenthesized(e) => visit_expr(e, out),
        Expr::NamedComponent(base) => visit_expr(base, out),
        Expr::Indexing(base, index) => {
            visit_expr(base, out);
            visit_expr(index, out);
        },
        Expr::Unary(operand) => visit_expr(operand, out),
        Expr::Binary(left, right) => {
            visit_expr(left, out);
            visit_expr(right, out);
        },
        Expr::Call(call) => visit_call(call, out),
        Expr::Type(ty) => visit_type(ty, out),
    }
}

/// The paths in a type expression, where there is one.
pub open spec fn optional_type_paths(ty: Option<TypeTree>) -> Seq<PathView> {
    match ty {
        Some(t) => t.paths(),
        None => Seq::empty(),
    }
}

impl DeclTree {
    pub open spec fn paths(self) -> Seq<PathView> {
        expr_list_paths(self.attributes) + optional_type_paths(self.ty) + optional_expr_paths(
            self.initializer,
        )
    }
}

impl TypedTree {
    pub open spec fn paths(self) -> Seq<PathView> {
        expr_list_paths(self.attributes) + self.ty.paths()
    }
}

impl ConditionTree {
    pub open spec fn paths(self) -> Seq<PathView> {
        expr_list_paths(self.attributes) + self.value.paths()
    }
}

impl ActionTree {
    pub open spec fn paths(self) -> Seq<PathView> {
        match self {
            ActionTree::Break | ActionTree::Continue | ActionTree::Discard => Seq::empty(),
            ActionTree::Assignment(lhs, rhs) => lhs.paths() + rhs.paths(),
            ActionTree::Increment(e) => e.paths(),
            ActionTree::Decrement(e) => e.paths(),
            ActionTree::Return(e) => optional_expr_paths(e),
            ActionTree::Call(call) => call.paths(),
        }
    }
}

impl PlainTree {
    pub open spec fn paths(self) -> Seq<PathView> {
        expr_list_paths(self.attributes) + self.action.paths()
    }
}

impl StmtTree {
    /// The paths in a statement, in the order in which it is written.
    pub open spec fn paths(self) -> Seq<PathView>
        decreases self,
    {
        match self {
            StmtTree::Void => Seq::empty(),
            StmtTree::Compound(body) => body.paths(),
            StmtTree::If(s) => s.paths(),
            StmtTree::Switch(s) => s.paths(),
            StmtTree::Loop(s) => s.paths(),
            StmtTree::For(s) => s.paths(),
            StmtTree::While(s) => s.paths(),
            StmtTree::Plain(s) => s.paths(),
            StmtTree::ConstAssert(condition) => condition.paths(),
            StmtTree::Declaration(decl) => decl.paths(),
        }
    }
}

impl BlockTree {
    pub open spec fn paths(self) -> Seq<PathView>
        decreases self,
    {
        expr_list_paths(self.attributes) + stmt_list_paths(self.statements)
    }
}

impl BranchTree {
    pub open spec fn paths(self) -> Seq<PathView>
        decreases self,
    {
        expr_list_paths(self.attributes) + self.condition.paths() + self.body.paths()
    }
}

impl IfTree {
    pub open spec fn paths(self) -> Seq<PathView>
        decreases self,
    {
        let conditional = self.first.paths() + branch_list_paths(self.else_ifs);
        match self.otherwise {
            Some(branch) => conditional + branch.paths(),
            None => conditional,
        }
    }
}

impl ElseTree {
    pub open spec fn paths(self) -> Seq<PathView>
        decreases self,
    {
        expr_list_paths(self.attributes) + self.body.paths()
    }
}

impl SwitchTree {
    pub open spec fn paths(self) -> Seq<PathView>
        decreases self,
    {
        expr_list_paths(self.attributes) + self.subject.paths() + expr_list_paths(
            self.body_attributes,
        ) + case_list_paths(self.cases)
    }
}

impl CaseTree {
    pub open spec fn paths(self) -> Seq<PathView>
        decreases self,
    {
        expr_list_paths(self.attributes) + selector_list_paths(self.selectors) + self.body.paths()
    }
}

impl SelectorTree {
    pub open spec fn paths(self) -> Seq<PathView> {
        match self {
            SelectorTree::Default => Seq::empty(),
            SelectorTree::Value(e) => e.paths(),
        }
    }
}

impl LoopTree {
    pub open spec fn paths(self) -> Seq<PathView>
        decreases self,
    {
        let looped = expr_list_paths(self.attributes) + self.body.paths();
        match self.continuing {
            Some(c) => looped + c.paths(),
            None => looped,
        }
    }
}

impl ContinuingTree {
    pub open spec fn paths(self) -> Seq<PathView>
        decreases self,
    {
        let continued = expr_list_paths(self.attributes) + self.body.paths();
        match self.break_if {
            Some(condition) => continued + condition.paths(),
            None => continued,
        }
    }
}

impl ForTree {
    pub open spec fn paths(self) -> Seq<PathView>
        decreases self,
    {
        let initializer = match self.initializer {
            Some(s) => s.paths(),
            None => Seq::empty(),
        };
        let update = match self.update {
            Some(s) => s.paths(),
            None => Seq::empty(),
        };
        expr_list_paths(self.attributes) + initializer + optional_expr_paths(self.condition)
            + update + self.body.paths()
    }
}

/// The paths in a list of statements, in order.
pub open spec fn stmt_list_paths(list: Seq<StmtTree>) -> Seq<PathView>
    decreases list,
{
    if list.len() == 0 {
        Seq::empty()
    } else {
        stmt_list_paths(list.drop_last()) + list.last().paths()
    }
}

/// The paths in a list of branches, in order.
pub open spec fn branch_list_paths(list: Seq<BranchTree>) -> Seq<PathView>
    decreases list,
{
    if list.len() == 0 {
        Seq::empty()
    } else {
        branch_list_paths(list.drop_last()) + list.last().paths()
    }
}

/// The paths in a list of cases, in order.
pub open spec fn case_list_paths(list: Seq<CaseTree>) -> Seq<PathView>
    decreases list,
{
    if list.len() == 0 {
        Seq::empty()
    } else {
        case_list_paths(list.drop_last()) + list.last().paths()
    }
}

/// The paths in a list of selectors, in order.
pub open spec fn selector_list_paths(list: Seq<SelectorTree>) -> Seq<PathView>
    decreases list,
{
    if list.len() == 0 {
        Seq::empty()
    } else {
        selector_list_paths(list.drop_last()) + list.last().paths()
    }
}

/// The paths in a list of typed names, in order.
pub open spec fn typed_list_paths(list: Seq<TypedTree>) -> Seq<PathView>
    decreases list,
{
    if list.len() == 0 {
        Seq::empty()
    } else {
        typed_list_paths(list.drop_last()) + list.last().paths()
    }
}

impl StructTree {
    pub open spec fn paths(self) -> Seq<PathView> {
        expr_list_paths(self.attributes) + typed_list_paths(self.members)
    }
}

impl FunctionTree {
    pub open spec fn paths(self) -> Seq<PathView> {
        expr_list_paths(self.attributes) + typed_list_paths(self.parameters) + expr_list_paths(
            self.return_attributes,
        ) + optional_type_paths(self.return_type) + self.body.paths()
    }
}

impl GlobalTree {
    pub open spec fn paths(self) -> Seq<PathView> {
        match self {
            GlobalTree::Void => Seq::empty(),
            GlobalTree::Declaration(decl) => decl.paths(),
            GlobalTree::TypeAlias(alias) => alias.paths(),
            GlobalTree::Struct(decl) => decl.paths(),
            GlobalTree::Function(function) => function.paths(),
            GlobalTree::ConstAssert(condition) => condition.paths(),
        }
    }
}

/// The paths in a list of declarations, in order.
pub open spec fn global_list_paths(list: Seq<GlobalTree>) -> Seq<PathView>
    decreases list,
{
    if list.len() == 0 {
        Seq::empty()
    } else {
        global_list_paths(list.drop_last()) + list.last().paths()
    }
}

impl UnitTree {
    /// The module path of every use site, in the order of the source.
    pub open spec fn paths(self) -> Seq<PathView> {
        global_list_paths(self.declarations)
    }
}

fn visit_optional_expr<'a>(expr: &'a Option<Expr>, out: &mut Vec<&'a WeslPath>)
    ensures
        shown_paths(final(out)@) == shown_paths(old(out)@) + optional_expr_paths(
            optional_expr(*expr),
        ),
{
    match expr {
        Some(e) => visit_expr(e, out),
        None => {},
    }
}

fn visit_optional_type<'a>(ty: &'a Option<TypeExpr>, out: &mut Vec<&'a WeslPath>)
    ensures
        shown_paths(final(out)@) == shown_paths(old(out)@) + optional_type_paths(
            optional_type(*ty),
        ),
{
    match ty {
        Some(t) => visit_type(t, out),
        None => {},
    }
}

fn visit_decl<'a>(decl: &'a Decl, out: &mut Vec<&'a WeslPath>)
    ensures
        shown_paths(final(out)@) == shown_paths(old(out)@) + decl.tree().paths(),
{
    visit_exprs(&decl.attributes, out);
    visit_optional_type(&decl.ty, out);
    visit_optional_expr(&decl.initializer, out);
}

fn visit_typed<'a>(item: &'a TypedName, out: &mut Vec<&'a WeslPath>)
    ensures
        shown_paths(final(out)@) == shown_paths(old(out)@) + item.tree().paths(),
{
    visit_exprs(&item.attributes, out);
    visit_type(&item.ty, out);
}

fn visit_condition<'a>(condition: &'a Condition, out: &mut Vec<&'a WeslPath>)
    ensures
        shown_paths(final(out)@) == shown_paths(old(out)@) + condition.tree().paths(),
{
    visit_exprs(&condition.attributes, out);
    visit_expr(&condition.value, out);
}

fn visit_action<'a>(action: &'a Action, out: &mut Vec<&'a WeslPath>)
    ensures
        shown_paths(final(out)@) == shown_paths(old(out)@) + action.tree().paths(),
{
    match action {
        Action::Break | Action::Continue | Action::Discard => {},
        Action::Assignment(lhs, rhs) => {
            visit_expr(lhs, out);
            visit_expr(rhs, out);
        },
        Action::Increment(e) => visit_expr(e, out),
        Action::Decrement(e) => visit_expr(e, out),
        Action::Return(e) => visit_optional_expr(e, out),
        Action::Call(call) => visit_call(call, out),
    }
}

fn visit_plain<'a>(stmt: &'a PlainStmt, out: &mut Vec<&'a WeslPath>)
    ensures
        shown_paths(final(out)@) == shown_paths(old(out)@) + stmt.tree().paths(),
{
    visit_exprs(&stmt.attributes, out);
    visit_action(&stmt.action, out);
}

fn visit_stmt<'a>(stmt: &'a Stmt, out: &mut Vec<&'a WeslPath>)
    ensures
        shown_paths(final(out)@) == shown_paths(old(out)@) + stmt.tree().paths(),
    decreases stmt,
{
    match stmt {
        Stmt::Void => {},
        Stmt::Compound(body) => visit_block(body, out),
        Stmt::If(s) => visit_if(s, out),
        Stmt::Switch(s) => visit_switch(s, out),
        Stmt::Loop(s) => visit_loop(s, out),
        Stmt::For(s) => visit_for(s, out),
        Stmt::While(s) => visit_branch(s, out),
        Stmt::Plain(s) => visit_plain(s, out),
        Stmt::ConstAssert(condition) => visit_condition(condition, out),
        Stmt::Declaration(decl) => visit_decl(decl, out),
    }
}

fn visit_block<'a>(block: &'a Block, out: &mut Vec<&'a WeslPath>)
    ensures
        shown_paths(final(out)@) == shown_paths(old(out)@) + block.tree().paths(),
    decreases block,
{
    visit_exprs(&block.attributes, out);
    visit_stmts(&block.statements, out);
}

fn visit_branch<'a>(branch: &'a Branch, out: &mut Vec<&'a WeslPath>)
    ensures
        shown_paths(final(out)@) == shown_paths(old(out)@) + branch.tree().paths(),
    decreases branch,
{
    visit_exprs(&branch.attributes, out);
    visit_expr(&branch.condition, out);
    visit_block(&branch.body, out);
}

fn visit_if<'a>(stmt: &'a IfStmt, out: &mut Vec<&'a WeslPath>)
    ensures
        shown_paths(final(out)@) == shown_paths(old(out)@) + stmt.tree().paths(),
    decreases stmt,
{
    visit_branch(&stmt.first, out);
    visit_branches(&stmt.else_ifs, out);
    match &stmt.otherwise {
        Some(branch) => visit_else(branch, out),
        None => {},
    }
}

fn visit_else<'a>(branch: &'a ElseBranch, out: &mut Vec<&'a WeslPath>)
    ensures
        shown_paths(final(out)@) == shown_paths(old(out)@) + branch.tree().paths(),
    decreases branch,
{
    visit_exprs(&branch.attributes, out);
    visit_block(&branch.body, out);
}

fn visit_switch<'a>(stmt: &'a SwitchStmt, out: &mut Vec<&'a WeslPath>)
    ensures
        shown_paths(final(out)@) == shown_paths(old(out)@) + stmt.tree().paths(),
    decreases stmt,
{
    visit_exprs(&stmt.attributes, out);
    visit_expr(&stmt.subject, out);
    visit_exprs(&stmt.body_attributes, out);
    visit_cases(&stmt.cases, out);
}

fn visit_case<'a>(case: &'a SwitchCase, out: &mut Vec<&'a WeslPath>)
    ensures
        shown_paths(final(out)@) == shown_paths(old(out)@) + case.tree().paths(),
    decreases case,
{
    visit_exprs(&case.attributes, out);
    visit_selectors(&case.selectors, out);
    visit_block(&case.body, out);
}

fn visit_selector<'a>(selector: &'a Selector, out: &mut Vec<&'a WeslPath>)
    ensures
        shown_paths(final(out)@) == shown_paths(old(out)@) + selector.tree().paths(),
{
    match selector {
        Selector::Default => {},
        Selector::Value(e) => visit_expr(e, out),
    }
}

fn visit_loop<'a>(stmt: &'a LoopStmt, out: &mut Vec<&'a WeslPath>)
    ensures
        shown_paths(final(out)@) == shown_paths(old(out)@) + stmt.tree().paths(),
    decreases stmt,
{
    visit_exprs(&stmt.attributes, out);
    visit_block(&stmt.body, out);
    match &stmt.continuing {
        Some(c) => visit_continuing(c, out),
        None => {},
    }
}

fn visit_continuing<'a>(stmt: &'a Continuing, out: &mut Vec<&'a WeslPath>)
    ensures
        shown_paths(final(out)@) == shown_paths(old(out)@) + stmt.tree().paths(),
    decreases stmt,
{
    visit_exprs(&stmt.attributes, out);
    visit_block(&stmt.body, out);
    match &stmt.break_if {
        Some(condition) => visit_condition(condition, out),
        None => {},
    }
}

fn visit_for<'a>(stmt: &'a ForStmt, out: &mut Vec<&'a WeslPath>)
    ensures
        shown_paths(final(out)@) == shown_paths(old(out)@) + stmt.tree().paths(),
    decreases stmt,
{
    visit_exprs(&stmt.attributes, out);
    match &stmt.initializer {
        Some(s) => visit_stmt(s, out),
        None => {},
    }
    visit_optional_expr(&stmt.condition, out);
    match &stmt.update {
        Some(s) => visit_stmt(s, out),
        None => {},
    }
    visit_block(&stmt.body, out);
}

fn visit_stmts<'a>(list: &'a Vec<Stmt>, out: &mut Vec<&'a WeslPath>)
    ensures
        shown_paths(final(out)@) == shown_paths(old(out)@) + stmt_list_paths(
            stmt_trees(list@),
        ),
    decreases list,
{
    let ghost start = shown_paths(out@);
    let ghost trees = stmt_trees(list@);
    let mut i: usize = 0;
    while i < list.len()
        invariant
            i <= list.len(),
            trees == stmt_trees(list@),
            shown_paths(out@) == start + stmt_list_paths(trees.take(i as int)),
        decreases list.len() - i,
    {
        assert(trees.take(i + 1).drop_last() == trees.take(i as int));
        assert(decreases_to!(list => list@[i as int]));
        visit_stmt(&list[i], out);
        i += 1;
    }
    assert(trees.take(trees.len() as int) == trees);
}

fn visit_branches<'a>(list: &'a Vec<Branch>, out: &mut Vec<&'a WeslPath>)
    ensures
        shown_paths(final(out)@) == shown_paths(old(out)@) + branch_list_paths(
            branch_trees(list@),
        ),
    decreases list,
{
    let ghost start = shown_paths(out@);
    let ghost trees = branch_trees(list@);
    let mut i: usize = 0;
    while i < list.len()
        invariant
            i <= list.len(),
            trees == branch_trees(list@),
            shown_paths(out@) == start + branch_list_paths(trees.take(i as int)),
        decreases list.len() - i,
    {
        assert(trees.take(i + 1).drop_last() == trees.take(i as int));
        assert(decreases_to!(list => list@[i as int]));
        visit_branch(&list[i], out);
        i += 1;
    }
    assert(trees.take(trees.len() as int) == trees);
}

fn visit_cases<'a>(list: &'a Vec<SwitchCase>, out: &mut Vec<&'a WeslPath>)
    ensures
        shown_paths(final(out)@) == shown_paths(old(out)@) + case_list_paths(
            case_trees(list@),
        ),
    decreases list,
{
    let ghost start = shown_paths(out@);
    let ghost trees = case_trees(list@);
    let mut i: usize = 0;
    while i < list.len()
        invariant
            i <= list.len(),
            trees == case_trees(list@),
            shown_paths(out@) == start + case_list_paths(trees.take(i as int)),
        decreases list.len() - i,
    {
        assert(trees.take(i + 1).drop_last() == trees.take(i as int));
        assert(decreases_to!(list => list@[i as int]));
        visit_case(&list[i], out);
        i += 1;
    }
    assert(trees.take(trees.len() as int) == trees);
}

fn visit_selectors<'a>(list: &'a Vec<Selector>, out: &mut Vec<&'a WeslPath>)
    ensures
        shown_paths(final(out)@) == shown_paths(old(out)@) + selector_list_paths(
            selector_trees(list@),
        ),
{
    let ghost start = shown_paths(out@);
    let ghost trees = selector_trees(list@);
    let mut i: usize = 0;
    while i < list.len()
        invariant
            i <= list.len(),
            trees == selector_trees(list@),
            shown_paths(out@) == start + selector_list_paths(trees.take(i as int)),
        decreases list.len() - i,
    {
        assert(trees.take(i + 1).drop_last() == trees.take(i as int));
        visit_selector(&list[i], out);
        i += 1;
    }
    assert(trees.take(trees.len() as int) == trees);
}

fn visit_typed_names<'a>(list: &'a Vec<TypedName>, out: &mut Vec<&'a WeslPath>)
    ensures
        shown_paths(final(out)@) == shown_paths(old(out)@) + typed_list_paths(
            typed_trees(list@),
        ),
{
    let ghost start = shown_paths(out@);
    let ghost trees = typed_trees(list@);
    let mut i: usize = 0;
    while i < list.len()
        invariant
            i <= list.len(),
            trees == typed_trees(list@),
            shown_paths(out@) == start + typed_list_paths(trees.take(i as int)),
        decreases list.len() - i,
    {
        assert(trees.take(i + 1).drop_last() == trees.take(i as int));
        visit_typed(&list[i], out);
        i += 1;
    }
    assert(trees.take(trees.len() as int) == trees);
}

fn visit_struct<'a>(decl: &'a StructDecl, out: &mut Vec<&'a WeslPath>)
    ensures
        shown_paths(final(out)@) == shown_paths(old(out)@) + decl.tree().paths(),
{
    visit_exprs(&decl.attributes, out);
    visit_typed_names(&decl.members, out);
}

fn visit_function<'a>(function: &'a FunctionDecl, out: &mut Vec<&'a WeslPath>)
    ensures
        shown_paths(final(out)@) == shown_paths(old(out)@) + function.tree().paths(),
{
    visit_exprs(&function.attributes, out);
    visit_typed_names(&function.parameters, out);
    visit_exprs(&function.return_attributes, out);
    visit_optional_type(&function.return_type, out);
    visit_block(&function.body, out);
}

fn visit_global<'a>(declaration: &'a GlobalDecl, out: &mut Vec<&'a WeslPath>)
    ensures
        shown_paths(final(out)@) == shown_paths(old(out)@) + declaration.tree().paths(),
{
    match declaration {
        GlobalDecl::Void => {},
        GlobalDecl::Declaration(decl) => visit_decl(decl, out),
        GlobalDecl::TypeAlias(alias) => visit_typed(alias, out),
        GlobalDecl::Struct(decl) => visit_struct(decl, out),
        GlobalDecl::Function(function) => visit_function(function, out),
        GlobalDecl::ConstAssert(condition) => visit_condition(condition, out),
    }
}

fn visit_globals<'a>(list: &'a Vec<GlobalDecl>, out: &mut Vec<&'a WeslPath>)
    ensures
        shown_paths(final(out)@) == shown_paths(old(out)@) + global_list_paths(
            global_trees(list@),
        ),
{
    let ghost start = shown_paths(out@);
    let ghost trees = global_trees(list@);
    let mut i: usize = 0;
    while i < list.len()
        invariant
            i <= list.len(),
            trees == global_trees(list@),
            shown_paths(out@) == start + global_list_paths(trees.take(i as int)),
        decreases list.len() - i,
    {
        assert(trees.take(i + 1).drop_last() == trees.take(i as int));
        visit_global(&list[i], out);
        i += 1;
    }
    assert(trees.take(trees.len() as int) == trees);
}

/// Collects the module path written at each use site. Only the name of a type, a function or a
/// value carries one.
pub fn used_module_paths(unit: &Unit) -> (r: Vec<&WeslPath>)
    ensures
        shown_paths(r@) == unit.tree().paths(),
{
    let mut out: Vec<&WeslPath> = Vec::new();
    assert(shown_paths(out@) == Seq::<PathView>::empty());
    visit_globals(&unit.declarations, &mut out);
    out
}

}
