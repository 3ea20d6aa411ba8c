//! The names that a source uses bare, such as the `color` of `color * 2.0`.
//!
//! A name that a parameter or a declaration in a function makes known stands for that until the
//! end of the block, and is not used bare there. What is declared at the top level hides no name.

use vstd::prelude::*;

use crate::syntax::{
    branch_trees, case_trees, expr_trees, global_trees, optional_expr, optional_type,
    selector_trees, stmt_trees, typed_trees, Action, ActionTree, Block, BlockTree, Branch,
    BranchTree, CallExpr, CallTree, CaseTree, Condition, ConditionTree, Continuing, ContinuingTree,
    Decl, DeclTree, ElseBranch, ElseTree, Expr, ExprTree, ForStmt, ForTree, FunctionDecl,
    FunctionTree, GlobalDecl, GlobalTree, IfStmt, IfTree, LoopStmt, LoopTree, PlainStmt, PlainTree,
    Selector, SelectorTree, Stmt, StmtTree, StructDecl, StructTree, SwitchCase, SwitchStmt,
    SwitchTree, TypeExpr, TypeTree, TypedName, TypedTree, Unit, UnitTree,
};
use crate::text::same_text;

verus! {

/// What each borrowed name of a list says.
pub open spec fn shown_names(list: Seq<&String>) -> Seq<Seq<char>> {
    list.map_values(|s: &String| s@)
}

impl TypeTree {
    /// The name where no path stands in front of it, then those in the template arguments; none
    /// that is known in `scope`.
    pub open spec fn bare_names(self, scope: Seq<Seq<char>>) -> Seq<Seq<char>>
        decreases self,
    {
        let own = if self.path is None && !scope.contains(self.name) {
            seq![self.name]
        } else {
            Seq::empty()
        };
        match self.template_args {
            Some(args) => own + expr_list_names(args, scope),
            None => own,
        }
    }
}

impl CallTree {
    pub open spec fn bare_names(self, scope: Seq<Seq<char>>) -> Seq<Seq<char>>
        decreases self,
    {
        self.ty.bare_names(scope) + expr_list_names(self.arguments, scope)
    }
}

impl ExprTree {
    /// The names that an expression uses bare where `scope` is known, from left to right.
    pub open spec fn bare_names(self, scope: Seq<Seq<char>>) -> Seq<Seq<char>>
        decreases self,
    {
        match self {
            ExprTree::Literal => Seq::empty(),
            ExprTree::Parenthesized(e) => e.bare_names(scope),
            ExprTree::NamedComponent(base) => base.bare_names(scope),
            ExprTree::Indexing(base, index) => base.bare_names(scope) + index.bare_names(scope),
            ExprTree::Unary(operand) => operand.bare_names(scope),
            ExprTree::Binary(left, right) => left.bare_names(scope) + right.bare_names(scope),
            ExprTree::Call(call) => call.bare_names(scope),
            ExprTree::Type(ty) => ty.bare_names(scope),
        }
    }
}

/// The names that a list of expressions uses bare where `scope` is known.
pub open spec fn expr_list_names(list: Seq<ExprTree>, scope: Seq<Seq<char>>) -> Seq<Seq<char>>
    decreases list,
{
    if list.len() == 0 {
        Seq::empty()
    } else {
        expr_list_names(list.drop_last(), scope) + list.last().bare_names(scope)
    }
}

/// The names that an expression uses bare, where there is one.
pub open spec fn optional_expr_names(item: Option<ExprTree>, scope: Seq<Seq<char>>) -> Seq<Seq<char>> {
    match item {
        Some(t) => t.bare_names(scope),
        None => Seq::empty(),
    }
}

/// The names that a type expression uses bare, where there is one.
pub open spec fn optional_type_names(item: Option<TypeTree>, scope: Seq<Seq<char>>) -> Seq<Seq<char>> {
    match item {
        Some(t) => t.bare_names(scope),
        None => Seq::empty(),
    }
}

impl DeclTree {
    pub open spec fn bare_names(self, scope: Seq<Seq<char>>) -> Seq<Seq<char>> {
        expr_list_names(self.attributes, scope) + optional_type_names(self.ty, scope)
            + optional_expr_names(self.initializer, scope)
    }
}

impl TypedTree {
    pub open spec fn bare_names(self, scope: Seq<Seq<char>>) -> Seq<Seq<char>> {
        expr_list_names(self.attributes, scope) + self.ty.bare_names(scope)
    }
}

impl ConditionTree {
    pub open spec fn bare_names(self, scope: Seq<Seq<char>>) -> Seq<Seq<char>> {
        expr_list_names(self.attributes, scope) + self.value.bare_names(scope)
    }
}

impl ActionTree {
    pub open spec fn bare_names(self, scope: Seq<Seq<char>>) -> Seq<Seq<char>> {
        match self {
            ActionTree::Break | ActionTree::Continue | ActionTree::Discard => Seq::empty(),
            ActionTree::Assignment(lhs, rhs) => lhs.bare_names(scope) + rhs.bare_names(scope),
            ActionTree::Increment(e) => e.bare_names(scope),
            ActionTree::Decrement(e) => e.bare_names(scope),
            ActionTree::Return(e) => optional_expr_names(e, scope),
            ActionTree::Call(call) => call.bare_names(scope),
        }
    }
}

impl PlainTree {
    pub open spec fn bare_names(self, scope: Seq<Seq<char>>) -> Seq<Seq<char>> {
        expr_list_names(self.attributes, scope) + self.action.bare_names(scope)
    }
}

impl StmtTree {
    /// The names that a statement makes known to those that follow it in its block.
    pub open spec fn declared(self) -> Seq<Seq<char>> {
        match self {
            StmtTree::Declaration(decl) => seq![decl.name],
            _ => Seq::empty(),
        }
    }

    /// The names that a statement uses bare where `scope` is known.
    pub open spec fn bare_names(self, scope: Seq<Seq<char>>) -> Seq<Seq<char>>
        decreases self,
    {
        match self {
            StmtTree::Void => Seq::empty(),
            StmtTree::Compound(body) => body.bare_names(scope),
            StmtTree::If(s) => s.bare_names(scope),
            StmtTree::Switch(s) => s.bare_names(scope),
            StmtTree::Loop(s) => s.bare_names(scope),
            StmtTree::For(s) => s.bare_names(scope),
            StmtTree::While(s) => s.bare_names(scope),
            StmtTree::Plain(s) => s.bare_names(scope),
            StmtTree::ConstAssert(condition) => condition.bare_names(scope),
            StmtTree::Declaration(decl) => decl.bare_names(scope),
        }
    }
}

/// The names that a list of statements makes known, in order.
pub open spec fn declared_names(list: Seq<StmtTree>) -> Seq<Seq<char>>
    decreases list.len(),
{
    if list.len() == 0 {
        Seq::empty()
    } else {
        declared_names(list.drop_last()) + list.last().declared()
    }
}

/// The names that the statements of a block use bare where `scope` is known. Each statement knows
/// what those in front of it declare.
pub open spec fn stmt_list_names(list: Seq<StmtTree>, scope: Seq<Seq<char>>) -> Seq<Seq<char>>
    decreases list,
{
    if list.len() == 0 {
        Seq::empty()
    } else {
        stmt_list_names(list.drop_last(), scope) + list.last().bare_names(
            scope + declared_names(list.drop_last()),
        )
    }
}

impl BlockTree {
    pub open spec fn bare_names(self, scope: Seq<Seq<char>>) -> Seq<Seq<char>>
        decreases self,
    {
        expr_list_names(self.attributes, scope) + stmt_list_names(self.statements, scope)
    }
}

impl BranchTree {
    pub open spec fn bare_names(self, scope: Seq<Seq<char>>) -> Seq<Seq<char>>
        decreases self,
    {
        expr_list_names(self.attributes, scope) + self.condition.bare_names(scope)
            + self.body.bare_names(scope)
    }
}

impl IfTree {
    pub open spec fn bare_names(self, scope: Seq<Seq<char>>) -> Seq<Seq<char>>
        decreases self,
    {
        let conditional = self.first.bare_names(scope) + branch_list_names(self.else_ifs, scope);
        match self.otherwise {
            Some(branch) => conditional + branch.bare_names(scope),
            None => conditional,
        }
    }
}

impl ElseTree {
    pub open spec fn bare_names(self, scope: Seq<Seq<char>>) -> Seq<Seq<char>>
        decreases self,
    {
        expr_list_names(self.attributes, scope) + self.body.bare_names(scope)
    }
}

impl SwitchTree {
    pub open spec fn bare_names(self, scope: Seq<Seq<char>>) -> Seq<Seq<char>>
        decreases self,
    {
        expr_list_names(self.attributes, scope) + self.subject.bare_names(scope)
            + expr_list_names(self.body_attributes, scope) + case_list_names(self.cases, scope)
    }
}

impl CaseTree {
    pub open spec fn bare_names(self, scope: Seq<Seq<char>>) -> Seq<Seq<char>>
        decreases self,
    {
        expr_list_names(self.attributes, scope) + selector_list_names(self.selectors, scope)
            + self.body.bare_names(scope)
    }
}

impl SelectorTree {
    pub open spec fn bare_names(self, scope: Seq<Seq<char>>) -> Seq<Seq<char>> {
        match self {
            SelectorTree::Default => Seq::empty(),
            SelectorTree::Value(e) => e.bare_names(scope),
        }
    }
}

impl LoopTree {
    /// The `continuing` statement knows what the body declares.
    pub open spec fn bare_names(self, scope: Seq<Seq<char>>) -> Seq<Seq<char>>
        decreases self,
    {
        let looped = expr_list_names(self.attributes, scope) + self.body.bare_names(scope);
        match self.continuing {
            Some(c) => looped + c.bare_names(scope + declared_names(self.body.statements)),
            None => looped,
        }
    }
}

impl ContinuingTree {
    /// The condition of a `break if` knows what the body declares.
    pub open spec fn bare_names(self, scope: Seq<Seq<char>>) -> Seq<Seq<char>>
        decreases self,
    {
        let continued = expr_list_names(self.attributes, scope) + self.body.bare_names(scope);
        match self.break_if {
            Some(condition) => continued + condition.bare_names(
                scope + declared_names(self.body.statements),
            ),
            None => continued,
        }
    }
}

impl ForTree {
    /// All but the attributes and the initializer knows what the initializer declares.
    pub open spec fn bare_names(self, scope: Seq<Seq<char>>) -> Seq<Seq<char>>
        decreases self,
    {
        let (initializer, inner) = match self.initializer {
            Some(s) => (s.bare_names(scope), scope + s.declared()),
            None => (Seq::empty(), scope),
        };
        let update = match self.update {
            Some(s) => s.bare_names(inner),
            None => Seq::empty(),
        };
        expr_list_names(self.attributes, scope) + initializer + optional_expr_names(
            self.condition,
            inner,
        ) + update + self.body.bare_names(inner)
    }
}

/// The names that a list of branches uses bare where `scope` is known.
pub open spec fn branch_list_names(list: Seq<BranchTree>, scope: Seq<Seq<char>>) -> Seq<Seq<char>>
    decreases list,
{
    if list.len() == 0 {
        Seq::empty()
    } else {
        branch_list_names(list.drop_last(), scope) + list.last().bare_names(scope)
    }
}

/// The names that a list of cases uses bare where `scope` is known.
pub open spec fn case_list_names(list: Seq<CaseTree>, scope: Seq<Seq<char>>) -> Seq<Seq<char>>
    decreases list,
{
    if list.len() == 0 {
        Seq::empty()
    } else {
        case_list_names(list.drop_last(), scope) + list.last().bare_names(scope)
    }
}

/// The names that a list of selectors uses bare where `scope` is known.
pub open spec fn selector_list_names(list: Seq<SelectorTree>, scope: Seq<Seq<char>>) -> Seq<Seq<char>>
    decreases list,
{
    if list.len() == 0 {
        Seq::empty()
    } else {
        selector_list_names(list.drop_last(), scope) + list.last().bare_names(scope)
    }
}

/// The names that a list of typed names uses bare where `scope` is known.
pub open spec fn typed_list_names(list: Seq<TypedTree>, scope: Seq<Seq<char>>) -> Seq<Seq<char>>
    decreases list,
{
    if list.len() == 0 {
        Seq::empty()
    } else {
        typed_list_names(list.drop_last(), scope) + list.last().bare_names(scope)
    }
}

impl StructTree {
    pub open spec fn bare_names(self) -> Seq<Seq<char>> {
        expr_list_names(self.attributes, Seq::empty()) + typed_list_names(
            self.members,
            Seq::empty(),
        )
    }
}

/// The names of the parameters, in order.
pub open spec fn parameter_names(list: Seq<TypedTree>) -> Seq<Seq<char>> {
    list.map_values(|p: TypedTree| p.name)
}

impl FunctionTree {
    /// Only the statements of the body know the parameters.
    pub open spec fn bare_names(self) -> Seq<Seq<char>> {
        let outside = Seq::empty();
        expr_list_names(self.attributes, outside) + typed_list_names(self.parameters, outside)
            + expr_list_names(self.return_attributes, outside) + optional_type_names(
            self.return_type,
            outside,
        ) + expr_list_names(self.body.attributes, outside) + stmt_list_names(
            self.body.statements,
            parameter_names(self.parameters),
        )
    }
}

impl GlobalTree {
    pub open spec fn bare_names(self) -> Seq<Seq<char>> {
        match self {
            GlobalTree::Void => Seq::empty(),
            GlobalTree::Declaration(decl) => decl.bare_names(Seq::empty()),
            GlobalTree::TypeAlias(alias) => alias.bare_names(Seq::empty()),
            GlobalTree::Struct(decl) => decl.bare_names(),
            GlobalTree::Function(function) => function.bare_names(),
            GlobalTree::ConstAssert(condition) => condition.bare_names(Seq::empty()),
        }
    }
}

/// The names that a list of declarations uses bare.
pub open spec fn global_list_names(list: Seq<GlobalTree>) -> Seq<Seq<char>>
    decreases list.len(),
{
    if list.len() == 0 {
        Seq::empty()
    } else {
        global_list_names(list.drop_last()) + list.last().bare_names()
    }
}

impl UnitTree {
    /// The name of every bare use, in the order of the source.
    pub open spec fn bare_names(self) -> Seq<Seq<char>> {
        global_list_names(self.declarations)
    }
}

/// Whether `after` is the scope `before` in which `names` were made known too.
spec fn extends(before: Seq<&String>, after: Seq<&String>, names: Seq<Seq<char>>) -> bool {
    &&& before.len() <= after.len()
    &&& after.take(before.len() as int) == before
    &&& shown_names(after) == shown_names(before) + names
}

/// Whether `name` is in the list.
pub fn is_among(list: &Vec<&String>, name: &String) -> (r: bool)
    ensures
        r == shown_names(list@).contains(name@),
{
    let ghost shown = shown_names(list@);
    let mut i: usize = 0;
    while i < list.len()
        invariant
            i <= list.len(),
            shown == shown_names(list@),
            forall|j: int| 0 <= j < i ==> shown[j] != name@,
        decreases list.len() - i,
    {
        if same_text(list[i].as_str(), name.as_str()) {
            assert(shown[i as int] == name@);
            return true;
        }
        i += 1;
    }
    false
}

fn name_type<'a>(ty: &'a TypeExpr, scope: &Vec<&'a String>, out: &mut Vec<&'a String>)
    ensures
        shown_names(final(out)@) == shown_names(old(out)@) + ty.tree().bare_names(
            shown_names(scope@),
        ),
    decreases ty,
{
    let ghost start = shown_names(out@);
    if ty.path.is_none() && !is_among(scope, &ty.name) {
        out.push(&ty.name);
        assert(shown_names(out@) == start + seq![ty.name@]);
    }
    match &ty.template_args {
        Some(args) => name_exprs(args, scope, out),
        None => {},
    }
}

fn name_exprs<'a>(list: &'a Vec<Expr>, scope: &Vec<&'a String>, out: &mut Vec<&'a String>)
    ensures
        shown_names(final(out)@) == shown_names(old(out)@) + expr_list_names(
            expr_trees(list@),
            shown_names(scope@),
        ),
    decreases list,
{
    let ghost start = shown_names(out@);
    let ghost trees = expr_trees(list@);
    let mut i: usize = 0;
    while i < list.len()
        invariant
            i <= list.len(),
            trees == expr_trees(list@),
            shown_names(out@) == start + expr_list_names(trees.take(i as int), shown_names(scope@)),
        decreases list.len() - i,
    {
        assert(trees.take(i + 1).drop_last() == trees.take(i as int));
        assert(decreases_to!(list => list@[i as int]));
        name_expr(&list[i], scope, out);
        i += 1;
    }
    assert(trees.take(trees.len() as int) == trees);
}

fn name_call<'a>(call: &'a CallExpr, scope: &Vec<&'a String>, out: &mut Vec<&'a String>)
    ensures
        shown_names(final(out)@) == shown_names(old(out)@) + call.tree().bare_names(
            shown_names(scope@),
        ),
    decreases call,
{
    name_type(&call.ty, scope, out);
    name_exprs(&call.arguments, scope, out);
}

fn name_expr<'a>(expr: &'a Expr, scope: &Vec<&'a String>, out: &mut Vec<&'a String>)
    ensures
        shown_names(final(out)@) == shown_names(old(out)@) + expr.tree().bare_names(
            shown_names(scope@),
        ),
    decreases expr,
{
    match expr {
        Expr::Literal => {},
        Expr::Parenthesized(e) => name_expr(e, scope, out),
        Expr::NamedComponent(base) => name_expr(base, scope, out),
        Expr::Indexing(base, index) => {
            name_expr(base, scope, out);
            name_expr(index, scope, out);
        },
        Expr::Unary(operand) => name_expr(operand, scope, out),
        Expr::Binary(left, right) => {
            name_expr(left, scope, out);
            name_expr(right, scope, out);
        },
        Expr::Call(call) => name_call(call, scope, out),
        Expr::Type(ty) => name_type(ty, scope, out),
    }
}

fn name_optional_expr<'a>(item: &'a Option<Expr>, scope: &Vec<&'a String>, out: &mut Vec<&'a String>)
    ensures
        shown_names(final(out)@) == shown_names(old(out)@) + optional_expr_names(
            optional_expr(*item),
            shown_names(scope@),
        ),
{
    match item {
        Some(t) => name_expr(t, scope, out),
        None => {},
    }
}

fn name_optional_type<'a>(item: &'a Option<TypeExpr>, scope: &Vec<&'a String>, out: &mut Vec<&'a String>)
    ensures
        shown_names(final(out)@) == shown_names(old(out)@) + optional_type_names(
            optional_type(*item),
            shown_names(scope@),
        ),
{
    match item {
        Some(t) => name_type(t, scope, out),
        None => {},
    }
}

fn name_decl<'a>(decl: &'a Decl, scope: &Vec<&'a String>, out: &mut Vec<&'a String>)
    ensures
        shown_names(final(out)@) == shown_names(old(out)@) + decl.tree().bare_names(
            shown_names(scope@),
        ),
{
    name_exprs(&decl.attributes, scope, out);
    name_optional_type(&decl.ty, scope, out);
    name_optional_expr(&decl.initializer, scope, out);
}

fn name_typed<'a>(item: &'a TypedName, scope: &Vec<&'a String>, out: &mut Vec<&'a String>)
    ensures
        shown_names(final(out)@) == shown_names(old(out)@) + item.tree().bare_names(
            shown_names(scope@),
        ),
{
    name_exprs(&item.attributes, scope, out);
    name_type(&item.ty, scope, out);
}

fn name_condition<'a>(condition: &'a Condition, scope: &Vec<&'a String>, out: &mut Vec<&'a String>)
    ensures
        shown_names(final(out)@) == shown_names(old(out)@) + condition.tree().bare_names(
            shown_names(scope@),
        ),
{
    name_exprs(&condition.attributes, scope, out);
    name_expr(&condition.value, scope, out);
}

fn name_action<'a>(action: &'a Action, scope: &Vec<&'a String>, out: &mut Vec<&'a String>)
    ensures
        shown_names(final(out)@) == shown_names(old(out)@) + action.tree().bare_names(
            shown_names(scope@),
        ),
{
    match action {
        Action::Break | Action::Continue | Action::Discard => {},
        Action::Assignment(lhs, rhs) => {
            name_expr(lhs, scope, out);
            name_expr(rhs, scope, out);
        },
        Action::Increment(e) => name_expr(e, scope, out),
        Action::Decrement(e) => name_expr(e, scope, out),
        Action::Return(e) => name_optional_expr(e, scope, out),
        Action::Call(call) => name_call(call, scope, out),
    }
}

fn name_plain<'a>(stmt: &'a PlainStmt, scope: &Vec<&'a String>, out: &mut Vec<&'a String>)
    ensures
        shown_names(final(out)@) == shown_names(old(out)@) + stmt.tree().bare_names(
            shown_names(scope@),
        ),
{
    name_exprs(&stmt.attributes, scope, out);
    name_action(&stmt.action, scope, out);
}

fn name_selector<'a>(selector: &'a Selector, scope: &Vec<&'a String>, out: &mut Vec<&'a String>)
    ensures
        shown_names(final(out)@) == shown_names(old(out)@) + selector.tree().bare_names(
            shown_names(scope@),
        ),
{
    match selector {
        Selector::Default => {},
        Selector::Value(e) => name_expr(e, scope, out),
    }
}

fn name_selectors<'a>(list: &'a Vec<Selector>, scope: &Vec<&'a String>, out: &mut Vec<&'a String>)
    ensures
        shown_names(final(out)@) == shown_names(old(out)@) + selector_list_names(
            selector_trees(list@),
            shown_names(scope@),
        ),
{
    let ghost start = shown_names(out@);
    let ghost trees = selector_trees(list@);
    let mut i: usize = 0;
    while i < list.len()
        invariant
            i <= list.len(),
            trees == selector_trees(list@),
            shown_names(out@) == start + selector_list_names(trees.take(i as int), shown_names(scope@)),
        decreases list.len() - i,
    {
        assert(trees.take(i + 1).drop_last() == trees.take(i as int));
        name_selector(&list[i], scope, out);
        i += 1;
    }
    assert(trees.take(trees.len() as int) == trees);
}

fn name_typed_names<'a>(list: &'a Vec<TypedName>, scope: &Vec<&'a String>, out: &mut Vec<&'a String>)
    ensures
        shown_names(final(out)@) == shown_names(old(out)@) + typed_list_names(
            typed_trees(list@),
            shown_names(scope@),
        ),
{
    let ghost start = shown_names(out@);
    let ghost trees = typed_trees(list@);
    let mut i: usize = 0;
    while i < list.len()
        invariant
            i <= list.len(),
            trees == typed_trees(list@),
            shown_names(out@) == start + typed_list_names(trees.take(i as int), shown_names(scope@)),
        decreases list.len() - i,
    {
        assert(trees.take(i + 1).drop_last() == trees.take(i as int));
        name_typed(&list[i], scope, out);
        i += 1;
    }
    assert(trees.take(trees.len() as int) == trees);
}

#[verifier::rlimit(60)]
fn name_stmt<'a>(stmt: &'a Stmt, scope: &mut Vec<&'a String>, out: &mut Vec<&'a String>)
    ensures
        final(scope)@ == old(scope)@,
        shown_names(final(out)@) == shown_names(old(out)@) + stmt.tree().bare_names(
            shown_names(old(scope)@),
        ),
    decreases stmt,
{
    match stmt {
        Stmt::Void => {},
        Stmt::Compound(body) => name_block(body, scope, out),
        Stmt::If(s) => name_if(s, scope, out),
        Stmt::Switch(s) => name_switch(s, scope, out),
        Stmt::Loop(s) => name_loop(s, scope, out),
        Stmt::For(s) => name_for(s, scope, out),
        Stmt::While(s) => name_branch(s, scope, out),
        Stmt::Plain(s) => name_plain(s, scope, out),
        Stmt::ConstAssert(condition) => name_condition(condition, scope, out),
        Stmt::Declaration(decl) => name_decl(decl, scope, out),
    }
}

/// Makes the names known that a statement declares.
fn declare<'a>(stmt: &'a Stmt, scope: &mut Vec<&'a String>)
    ensures
        extends(old(scope)@, final(scope)@, stmt.tree().declared()),
{
    let ghost known = scope@;
    match stmt {
        Stmt::Declaration(decl) => {
            scope.push(&decl.name);
            assert(shown_names(scope@) == shown_names(known) + seq![decl.name@]);
        },
        _ => {},
    }
    assert(scope@.take(known.len() as int) == known);
}

/// Leaves what the statements declare known.
fn name_stmts<'a>(list: &'a Vec<Stmt>, scope: &mut Vec<&'a String>, out: &mut Vec<&'a String>)
    ensures
        extends(old(scope)@, final(scope)@, declared_names(stmt_trees(list@))),
        shown_names(final(out)@) == shown_names(old(out)@) + stmt_list_names(
            stmt_trees(list@),
            shown_names(old(scope)@),
        ),
    decreases list,
{
    let ghost start = shown_names(out@);
    let ghost known = scope@;
    let ghost trees = stmt_trees(list@);
    assert(known.take(known.len() as int) == known);
    let mut i: usize = 0;
    while i < list.len()
        invariant
            i <= list.len(),
            trees == stmt_trees(list@),
            extends(known, scope@, declared_names(trees.take(i as int))),
            shown_names(out@) == start + stmt_list_names(
                trees.take(i as int),
                shown_names(known),
            ),
        decreases list.len() - i,
    {
        assert(trees.take(i + 1).drop_last() == trees.take(i as int));
        assert(decreases_to!(list => list@[i as int]));
        name_stmt(&list[i], scope, out);
        let ghost inner = scope@;
        declare(&list[i], scope);
        proof {
            assert(scope@.take(inner.len() as int) == inner);
            assert(scope@.take(known.len() as int) == inner.take(known.len() as int)) by {
                assert(forall|j: int|
                    0 <= j < inner.len() ==> scope@.take(inner.len() as int)[j] == scope@[j]);
            }
            assert(shown_names(scope@) == shown_names(known) + declared_names(trees.take(i + 1)));
        }
        i += 1;
    }
    assert(trees.take(trees.len() as int) == trees);
}

fn name_block<'a>(block: &'a Block, scope: &mut Vec<&'a String>, out: &mut Vec<&'a String>)
    ensures
        final(scope)@ == old(scope)@,
        shown_names(final(out)@) == shown_names(old(out)@) + block.tree().bare_names(
            shown_names(old(scope)@),
        ),
    decreases block,
{
    name_exprs(&block.attributes, scope, out);
    let outer: usize = scope.len();
    name_stmts(&block.statements, scope, out);
    scope.truncate(outer);
}

fn name_branch<'a>(branch: &'a Branch, scope: &mut Vec<&'a String>, out: &mut Vec<&'a String>)
    ensures
        final(scope)@ == old(scope)@,
        shown_names(final(out)@) == shown_names(old(out)@) + branch.tree().bare_names(
            shown_names(old(scope)@),
        ),
    decreases branch,
{
    name_exprs(&branch.attributes, scope, out);
    name_expr(&branch.condition, scope, out);
    name_block(&branch.body, scope, out);
}

fn name_if<'a>(stmt: &'a IfStmt, scope: &mut Vec<&'a String>, out: &mut Vec<&'a String>)
    ensures
        final(scope)@ == old(scope)@,
        shown_names(final(out)@) == shown_names(old(out)@) + stmt.tree().bare_names(
            shown_names(old(scope)@),
        ),
    decreases stmt,
{
    name_branch(&stmt.first, scope, out);
    name_branches(&stmt.else_ifs, scope, out);
    match &stmt.otherwise {
        Some(branch) => name_else(branch, scope, out),
        None => {},
    }
}

fn name_else<'a>(branch: &'a ElseBranch, scope: &mut Vec<&'a String>, out: &mut Vec<&'a String>)
    ensures
        final(scope)@ == old(scope)@,
        shown_names(final(out)@) == shown_names(old(out)@) + branch.tree().bare_names(
            shown_names(old(scope)@),
        ),
    decreases branch,
{
    name_exprs(&branch.attributes, scope, out);
    name_block(&branch.body, scope, out);
}

fn name_switch<'a>(stmt: &'a SwitchStmt, scope: &mut Vec<&'a String>, out: &mut Vec<&'a String>)
    ensures
        final(scope)@ == old(scope)@,
        shown_names(final(out)@) == shown_names(old(out)@) + stmt.tree().bare_names(
            shown_names(old(scope)@),
        ),
    decreases stmt,
{
    name_exprs(&stmt.attributes, scope, out);
    name_expr(&stmt.subject, scope, out);
    name_exprs(&stmt.body_attributes, scope, out);
    name_cases(&stmt.cases, scope, out);
}

fn name_case<'a>(case: &'a SwitchCase, scope: &mut Vec<&'a String>, out: &mut Vec<&'a String>)
    ensures
        final(scope)@ == old(scope)@,
        shown_names(final(out)@) == shown_names(old(out)@) + case.tree().bare_names(
            shown_names(old(scope)@),
        ),
    decreases case,
{
    name_exprs(&case.attributes, scope, out);
    name_selectors(&case.selectors, scope, out);
    name_block(&case.body, scope, out);
}

fn name_loop<'a>(stmt: &'a LoopStmt, scope: &mut Vec<&'a String>, out: &mut Vec<&'a String>)
    ensures
        final(scope)@ == old(scope)@,
        shown_names(final(out)@) == shown_names(old(out)@) + stmt.tree().bare_names(
            shown_names(old(scope)@),
        ),
    decreases stmt,
{
    let ghost known = scope@;
    let outer: usize = scope.len();
    name_exprs(&stmt.attributes, scope, out);
    name_exprs(&stmt.body.attributes, scope, out);
    assert(decreases_to!(stmt => stmt.body.statements));
    name_stmts(&stmt.body.statements, scope, out);
    match &stmt.continuing {
        Some(c) => name_continuing(c, scope, out),
        None => {},
    }
    scope.truncate(outer);
}

fn name_continuing<'a>(stmt: &'a Continuing, scope: &mut Vec<&'a String>, out: &mut Vec<&'a String>)
    ensures
        final(scope)@ == old(scope)@,
        shown_names(final(out)@) == shown_names(old(out)@) + stmt.tree().bare_names(
            shown_names(old(scope)@),
        ),
    decreases stmt,
{
    let outer: usize = scope.len();
    name_exprs(&stmt.attributes, scope, out);
    name_exprs(&stmt.body.attributes, scope, out);
    assert(decreases_to!(stmt => stmt.body.statements));
    name_stmts(&stmt.body.statements, scope, out);
    match &stmt.break_if {
        Some(condition) => name_condition(condition, scope, out),
        None => {},
    }
    scope.truncate(outer);
}

fn name_for<'a>(stmt: &'a ForStmt, scope: &mut Vec<&'a String>, out: &mut Vec<&'a String>)
    ensures
        final(scope)@ == old(scope)@,
        shown_names(final(out)@) == shown_names(old(out)@) + stmt.tree().bare_names(
            shown_names(old(scope)@),
        ),
    decreases stmt,
{
    let ghost known = scope@;
    let outer: usize = scope.len();
    assert(known.take(known.len() as int) == known);
    name_exprs(&stmt.attributes, scope, out);
    match &stmt.initializer {
        Some(s) => {
            name_stmt(s, scope, out);
            declare(s, scope);
        },
        None => {},
    }
    name_optional_expr(&stmt.condition, scope, out);
    match &stmt.update {
        Some(s) => name_stmt(s, scope, out),
        None => {},
    }
    name_block(&stmt.body, scope, out);
    scope.truncate(outer);
}

fn name_branches<'a>(list: &'a Vec<Branch>, scope: &mut Vec<&'a String>, out: &mut Vec<&'a String>)
    ensures
        final(scope)@ == old(scope)@,
        shown_names(final(out)@) == shown_names(old(out)@) + branch_list_names(
            branch_trees(list@),
            shown_names(old(scope)@),
        ),
    decreases list,
{
    let ghost start = shown_names(out@);
    let ghost trees = branch_trees(list@);
    let ghost known = scope@;
    let mut i: usize = 0;
    while i < list.len()
        invariant
            i <= list.len(),
            trees == branch_trees(list@),
            scope@ == known,
            shown_names(out@) == start + branch_list_names(trees.take(i as int), shown_names(scope@)),
        decreases list.len() - i,
    {
        assert(trees.take(i + 1).drop_last() == trees.take(i as int));
        assert(decreases_to!(list => list@[i as int]));
        name_branch(&list[i], scope, out);
        i += 1;
    }
    assert(trees.take(trees.len() as int) == trees);
}

fn name_cases<'a>(list: &'a Vec<SwitchCase>, scope: &mut Vec<&'a String>, out: &mut Vec<&'a String>)
    ensures
        final(scope)@ == old(scope)@,
        shown_names(final(out)@) == shown_names(old(out)@) + case_list_names(
            case_trees(list@),
            shown_names(old(scope)@),
        ),
    decreases list,
{
    let ghost start = shown_names(out@);
    let ghost trees = case_trees(list@);
    let ghost known = scope@;
    let mut i: usize = 0;
    while i < list.len()
        invariant
            i <= list.len(),
            trees == case_trees(list@),
            scope@ == known,
            shown_names(out@) == start + case_list_names(trees.take(i as int), shown_names(scope@)),
        decreases list.len() - i,
    {
        assert(trees.take(i + 1).drop_last() == trees.take(i as int));
        assert(decreases_to!(list => list@[i as int]));
        name_case(&list[i], scope, out);
        i += 1;
    }
    assert(trees.take(trees.len() as int) == trees);
}

fn name_struct<'a>(decl: &'a StructDecl, out: &mut Vec<&'a String>)
    ensures
        shown_names(final(out)@) == shown_names(old(out)@) + decl.tree().bare_names(),
{
    let outside: Vec<&String> = Vec::new();
    assert(shown_names(outside@) == Seq::<Seq<char>>::empty());
    name_exprs(&decl.attributes, &outside, out);
    name_typed_names(&decl.members, &outside, out);
}

fn name_function<'a>(function: &'a FunctionDecl, out: &mut Vec<&'a String>)
    ensures
        shown_names(final(out)@) == shown_names(old(out)@) + function.tree().bare_names(),
{
    let mut scope: Vec<&String> = Vec::new();
    assert(shown_names(scope@) == Seq::<Seq<char>>::empty());
    name_exprs(&function.attributes, &scope, out);
    name_typed_names(&function.parameters, &scope, out);
    name_exprs(&function.return_attributes, &scope, out);
    name_optional_type(&function.return_type, &scope, out);
    name_exprs(&function.body.attributes, &scope, out);
    let ghost names = parameter_names(typed_trees(function.parameters@));
    let mut i: usize = 0;
    while i < function.parameters.len()
        invariant
            i <= function.parameters.len(),
            names == parameter_names(typed_trees(function.parameters@)),
            shown_names(scope@) == names.take(i as int),
        decreases function.parameters.len() - i,
    {
        let ghost before = shown_names(scope@);
        scope.push(&function.parameters[i].name);
        assert(shown_names(scope@) == before.push(names[i as int]));
        i += 1;
    }
    assert(names.take(names.len() as int) == names);
    name_stmts(&function.body.statements, &mut scope, out);
}

fn name_global<'a>(declaration: &'a GlobalDecl, out: &mut Vec<&'a String>)
    ensures
        shown_names(final(out)@) == shown_names(old(out)@) + declaration.tree().bare_names(),
{
    let outside: Vec<&String> = Vec::new();
    assert(shown_names(outside@) == Seq::<Seq<char>>::empty());
    match declaration {
        GlobalDecl::Void => {},
        GlobalDecl::Declaration(decl) => name_decl(decl, &outside, out),
        GlobalDecl::TypeAlias(alias) => name_typed(alias, &outside, out),
        GlobalDecl::Struct(decl) => name_struct(decl, out),
        GlobalDecl::Function(function) => name_function(function, out),
        GlobalDecl::ConstAssert(condition) => name_condition(condition, &outside, out),
    }
}

/// Collects the name of each bare use.
pub fn bare_names(unit: &Unit) -> (r: Vec<&String>)
    ensures
        shown_names(r@) == unit.tree().bare_names(),
{
    let list = &unit.declarations;
    let mut out: Vec<&String> = Vec::new();
    assert(shown_names(out@) == Seq::<Seq<char>>::empty());
    let ghost trees = global_trees(list@);
    let mut i: usize = 0;
    while i < list.len()
        invariant
            i <= list.len(),
            trees == global_trees(list@),
            shown_names(out@) == global_list_names(trees.take(i as int)),
        decreases list.len() - i,
    {
        assert(trees.take(i + 1).drop_last() == trees.take(i as int));
        name_global(&list[i], &mut out);
        i += 1;
    }
    assert(trees.take(trees.len() as int) == trees);
    out
}

}
