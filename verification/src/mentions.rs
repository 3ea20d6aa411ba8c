//! Every type expression of a source, and that its use sites write one path for each of them that
//! carries one.
//!
//! The name of a type, a function or a value is a type expression, wherever it stands.

use vstd::prelude::*;

use crate::path::PathView;
use crate::syntax::{
    ActionTree, BlockTree, BranchTree, CallTree, CaseTree, ConditionTree, ContinuingTree, DeclTree,
    ElseTree, ExprTree, ForTree, FunctionTree, GlobalTree, IfTree, LoopTree, PlainTree,
    SelectorTree, StmtTree, StructTree, SwitchTree, TypeTree, TypedTree, UnitTree,
};
use crate::usage::{
    branch_list_paths, case_list_paths, expr_list_paths, global_list_paths, optional_expr_paths,
    optional_type_paths, selector_list_paths, stmt_list_paths, typed_list_paths,
};

verus! {

/// The paths that the type expressions of a list carry, in order.
pub open spec fn carried(types: Seq<TypeTree>) -> Seq<PathView>
    decreases types.len(),
{
    if types.len() == 0 {
        Seq::empty()
    } else {
        let before = carried(types.drop_last());
        match types.last().path {
            Some(path) => before.push(path),
            None => before,
        }
    }
}

/// How many type expressions of a list carry a path.
pub open spec fn qualified_count(types: Seq<TypeTree>) -> nat
    decreases types.len(),
{
    if types.len() == 0 {
        0
    } else {
        let before = qualified_count(types.drop_last());
        if types.last().path is Some {
            before + 1
        } else {
            before
        }
    }
}

impl TypeTree {
    /// The type expression itself, then those in its template arguments.
    pub open spec fn types(self) -> Seq<TypeTree>
        decreases self,
    {
        match self.template_args {
            Some(args) => seq![self] + expr_list_types(args),
            None => seq![self],
        }
    }
}

impl CallTree {
    pub open spec fn types(self) -> Seq<TypeTree>
        decreases self,
    {
        self.ty.types() + expr_list_types(self.arguments)
    }
}

impl ExprTree {
    /// The type expressions in an expression, from left to right.
    pub open spec fn types(self) -> Seq<TypeTree>
        decreases self,
    {
        match self {
            ExprTree::Literal => Seq::empty(),
            ExprTree::Parenthesized(e) => e.types(),
            ExprTree::NamedComponent(base) => base.types(),
            ExprTree::Indexing(base, index) => base.types() + index.types(),
            ExprTree::Unary(operand) => operand.types(),
            ExprTree::Binary(left, right) => left.types() + right.types(),
            ExprTree::Call(call) => call.types(),
            ExprTree::Type(ty) => ty.types(),
        }
    }
}

/// The type expressions in a list of expressions, in order.
pub open spec fn expr_list_types(list: Seq<ExprTree>) -> Seq<TypeTree>
    decreases list,
{
    if list.len() == 0 {
        Seq::empty()
    } else {
        expr_list_types(list.drop_last()) + list.last().types()
    }
}

/// The type expressions in an expression, where there is one.
pub open spec fn optional_expr_types(expr: Option<ExprTree>) -> Seq<TypeTree> {
    match expr {
        Some(e) => e.types(),
        None => Seq::empty(),
    }
}

/// The type expressions in a type expression, where there is one.
pub open spec fn optional_type_types(ty: Option<TypeTree>) -> Seq<TypeTree> {
    match ty {
        Some(t) => t.types(),
        None => Seq::empty(),
    }
}

impl DeclTree {
    pub open spec fn types(self) -> Seq<TypeTree> {
        expr_list_types(self.attributes) + optional_type_types(self.ty) + optional_expr_types(
            self.initializer,
        )
    }
}

impl TypedTree {
    pub open spec fn types(self) -> Seq<TypeTree> {
        expr_list_types(self.attributes) + self.ty.types()
    }
}

impl ConditionTree {
    pub open spec fn types(self) -> Seq<TypeTree> {
        expr_list_types(self.attributes) + self.value.types()
    }
}

impl ActionTree {
    pub open spec fn types(self) -> Seq<TypeTree> {
        match self {
            ActionTree::Break | ActionTree::Continue | ActionTree::Discard => Seq::empty(),
            ActionTree::Assignment(lhs, rhs) => lhs.types() + rhs.types(),
            ActionTree::Increment(e) => e.types(),
            ActionTree::Decrement(e) => e.types(),
            ActionTree::Return(e) => optional_expr_types(e),
            ActionTree::Call(call) => call.types(),
        }
    }
}

impl PlainTree {
    pub open spec fn types(self) -> Seq<TypeTree> {
        expr_list_types(self.attributes) + self.action.types()
    }
}

impl StmtTree {
    /// The type expressions in a statement, in the order in which it is written.
    pub open spec fn types(self) -> Seq<TypeTree>
        decreases self,
    {
        match self {
            StmtTree::Void => Seq::empty(),
            StmtTree::Compound(body) => body.types(),
            StmtTree::If(s) => s.types(),
            StmtTree::Switch(s) => s.types(),
            StmtTree::Loop(s) => s.types(),
            StmtTree::For(s) => s.types(),
            StmtTree::While(s) => s.types(),
            StmtTree::Plain(s) => s.types(),
            StmtTree::ConstAssert(condition) => condition.types(),
            StmtTree::Declaration(decl) => decl.types(),
        }
    }
}

impl BlockTree {
    pub open spec fn types(self) -> Seq<TypeTree>
        decreases self,
    {
        expr_list_types(self.attributes) + stmt_list_types(self.statements)
    }
}

impl BranchTree {
    pub open spec fn types(self) -> Seq<TypeTree>
        decreases self,
    {
        expr_list_types(self.attributes) + self.condition.types() + self.body.types()
    }
}

impl IfTree {
    pub open spec fn types(self) -> Seq<TypeTree>
        decreases self,
    {
        let conditional = self.first.types() + branch_list_types(self.else_ifs);
        match self.otherwise {
            Some(branch) => conditional + branch.types(),
            None => conditional,
        }
    }
}

impl ElseTree {
    pub open spec fn types(self) -> Seq<TypeTree>
        decreases self,
    {
        expr_list_types(self.attributes) + self.body.types()
    }
}

impl SwitchTree {
    pub open spec fn types(self) -> Seq<TypeTree>
        decreases self,
    {
        expr_list_types(self.attributes) + self.subject.types() + expr_list_types(
            self.body_attributes,
        ) + case_list_types(self.cases)
    }
}

impl CaseTree {
    pub open spec fn types(self) -> Seq<TypeTree>
        decreases self,
    {
        expr_list_types(self.attributes) + selector_list_types(self.selectors) + self.body.types()
    }
}

impl SelectorTree {
    pub open spec fn types(self) -> Seq<TypeTree> {
        match self {
            SelectorTree::Default => Seq::empty(),
            SelectorTree::Value(e) => e.types(),
        }
    }
}

impl LoopTree {
    pub open spec fn types(self) -> Seq<TypeTree>
        decreases self,
    {
        let looped = expr_list_types(self.attributes) + self.body.types();
        match self.continuing {
            Some(c) => looped + c.types(),
            None => looped,
        }
    }
}

impl ContinuingTree {
    pub open spec fn types(self) -> Seq<TypeTree>
        decreases self,
    {
        let continued = expr_list_types(self.attributes) + self.body.types();
        match self.break_if {
            Some(condition) => continued + condition.types(),
            None => continued,
        }
    }
}

impl ForTree {
    pub open spec fn types(self) -> Seq<TypeTree>
        decreases self,
    {
        let initializer = match self.initializer {
            Some(s) => s.types(),
            None => Seq::empty(),
        };
        let update = match self.update {
            Some(s) => s.types(),
            None => Seq::empty(),
        };
        expr_list_types(self.attributes) + initializer + optional_expr_types(self.condition)
            + update + self.body.types()
    }
}

/// The type expressions in a list of statements, in order.
pub open spec fn stmt_list_types(list: Seq<StmtTree>) -> Seq<TypeTree>
    decreases list,
{
    if list.len() == 0 {
        Seq::empty()
    } else {
        stmt_list_types(list.drop_last()) + list.last().types()
    }
}

/// The type expressions in a list of branches, in order.
pub open spec fn branch_list_types(list: Seq<BranchTree>) -> Seq<TypeTree>
    decreases list,
{
    if list.len() == 0 {
        Seq::empty()
    } else {
        branch_list_types(list.drop_last()) + list.last().types()
    }
}

/// The type expressions in a list of cases, in order.
pub open spec fn case_list_types(list: Seq<CaseTree>) -> Seq<TypeTree>
    decreases list,
{
    if list.len() == 0 {
        Seq::empty()
    } else {
        case_list_types(list.drop_last()) + list.last().types()
    }
}

/// The type expressions in a list of selectors, in order.
pub open spec fn selector_list_types(list: Seq<SelectorTree>) -> Seq<TypeTree>
    decreases list,
{
    if list.len() == 0 {
        Seq::empty()
    } else {
        selector_list_types(list.drop_last()) + list.last().types()
    }
}

/// The type expressions in a list of typed names, in order.
pub open spec fn typed_list_types(list: Seq<TypedTree>) -> Seq<TypeTree>
    decreases list,
{
    if list.len() == 0 {
        Seq::empty()
    } else {
        typed_list_types(list.drop_last()) + list.last().types()
    }
}

impl StructTree {
    pub open spec fn types(self) -> Seq<TypeTree> {
        expr_list_types(self.attributes) + typed_list_types(self.members)
    }
}

impl FunctionTree {
    pub open spec fn types(self) -> Seq<TypeTree> {
        expr_list_types(self.attributes) + typed_list_types(self.parameters) + expr_list_types(
            self.return_attributes,
        ) + optional_type_types(self.return_type) + self.body.types()
    }
}

impl GlobalTree {
    pub open spec fn types(self) -> Seq<TypeTree> {
        match self {
            GlobalTree::Void => Seq::empty(),
            GlobalTree::Declaration(decl) => decl.types(),
            GlobalTree::TypeAlias(alias) => alias.types(),
            GlobalTree::Struct(decl) => decl.types(),
            GlobalTree::Function(function) => function.types(),
            GlobalTree::ConstAssert(condition) => condition.types(),
        }
    }
}

/// The type expressions in a list of declarations, in order.
pub open spec fn global_list_types(list: Seq<GlobalTree>) -> Seq<TypeTree>
    decreases list,
{
    if list.len() == 0 {
        Seq::empty()
    } else {
        global_list_types(list.drop_last()) + list.last().types()
    }
}

impl UnitTree {
    /// Every type expression, in the order of the source.
    pub open spec fn types(self) -> Seq<TypeTree> {
        global_list_types(self.declarations)
    }
}

/// What two lists carry is what the first carries and then what the second does.
broadcast proof fn lemma_carried_sum(a: Seq<TypeTree>, b: Seq<TypeTree>)
    ensures
        #[trigger] carried(a + b) == carried(a) + carried(b),
    decreases b.len(),
{
    if b.len() == 0 {
        assert(a + b == a);
    } else {
        lemma_carried_sum(a, b.drop_last());
        assert((a + b).drop_last() == a + b.drop_last());
    }
}

/// One type expression carries its own path.
proof fn lemma_carried_one(ty: TypeTree)
    ensures
        carried(seq![ty]) == match ty.path {
            Some(path) => seq![path],
            None => Seq::empty(),
        },
{
    assert(seq![ty].drop_last() == Seq::<TypeTree>::empty());
    reveal_with_fuel(carried, 2);
}

proof fn lemma_type(tree: TypeTree)
    ensures
        tree.paths() == carried(tree.types()),
    decreases tree,
{
    broadcast use lemma_carried_sum;

    lemma_carried_one(tree);
    if let Some(args) = tree.template_args {
        lemma_exprs(args);
    }
}

proof fn lemma_call(tree: CallTree)
    ensures
        tree.paths() == carried(tree.types()),
    decreases tree,
{
    broadcast use lemma_carried_sum;

    lemma_type(tree.ty);
    lemma_exprs(tree.arguments);
}

proof fn lemma_expr(tree: ExprTree)
    ensures
        tree.paths() == carried(tree.types()),
    decreases tree,
{
    broadcast use lemma_carried_sum;

    match tree {
        ExprTree::Literal => {},
        ExprTree::Parenthesized(e) => lemma_expr(*e),
        ExprTree::NamedComponent(base) => lemma_expr(*base),
        ExprTree::Indexing(base, index) => {
            lemma_expr(*base);
            lemma_expr(*index);
        },
        ExprTree::Unary(operand) => lemma_expr(*operand),
        ExprTree::Binary(left, right) => {
            lemma_expr(*left);
            lemma_expr(*right);
        },
        ExprTree::Call(call) => lemma_call(call),
        ExprTree::Type(ty) => lemma_type(ty),
    }
}

proof fn lemma_exprs(list: Seq<ExprTree>)
    ensures
        expr_list_paths(list) == carried(expr_list_types(list)),
    decreases list,
{
    broadcast use lemma_carried_sum;

    if list.len() > 0 {
        lemma_exprs(list.drop_last());
        lemma_expr(list.last());
    }
}

proof fn lemma_optional_expr(expr: Option<ExprTree>)
    ensures
        optional_expr_paths(expr) == carried(optional_expr_types(expr)),
{
    broadcast use lemma_carried_sum;

    if let Some(e) = expr {
        lemma_expr(e);
    }
}

proof fn lemma_optional_type(ty: Option<TypeTree>)
    ensures
        optional_type_paths(ty) == carried(optional_type_types(ty)),
{
    broadcast use lemma_carried_sum;

    if let Some(t) = ty {
        lemma_type(t);
    }
}

proof fn lemma_decl(tree: DeclTree)
    ensures
        tree.paths() == carried(tree.types()),
{
    broadcast use lemma_carried_sum;

    lemma_exprs(tree.attributes);
    lemma_optional_type(tree.ty);
    lemma_optional_expr(tree.initializer);
}

proof fn lemma_typed(tree: TypedTree)
    ensures
        tree.paths() == carried(tree.types()),
{
    broadcast use lemma_carried_sum;

    lemma_exprs(tree.attributes);
    lemma_type(tree.ty);
}

proof fn lemma_condition(tree: ConditionTree)
    ensures
        tree.paths() == carried(tree.types()),
{
    broadcast use lemma_carried_sum;

    lemma_exprs(tree.attributes);
    lemma_expr(tree.value);
}

proof fn lemma_action(tree: ActionTree)
    ensures
        tree.paths() == carried(tree.types()),
{
    broadcast use lemma_carried_sum;

    match tree {
        ActionTree::Break | ActionTree::Continue | ActionTree::Discard => {},
        ActionTree::Assignment(lhs, rhs) => {
            lemma_expr(lhs);
            lemma_expr(rhs);
        },
        ActionTree::Increment(e) => lemma_expr(e),
        ActionTree::Decrement(e) => lemma_expr(e),
        ActionTree::Return(e) => lemma_optional_expr(e),
        ActionTree::Call(call) => lemma_call(call),
    }
}

proof fn lemma_plain(tree: PlainTree)
    ensures
        tree.paths() == carried(tree.types()),
{
    broadcast use lemma_carried_sum;

    lemma_exprs(tree.attributes);
    lemma_action(tree.action);
}

proof fn lemma_stmt(tree: StmtTree)
    ensures
        tree.paths() == carried(tree.types()),
    decreases tree,
{
    broadcast use lemma_carried_sum;

    match tree {
        StmtTree::Void => {},
        StmtTree::Compound(body) => lemma_block(body),
        StmtTree::If(s) => lemma_if(s),
        StmtTree::Switch(s) => lemma_switch(s),
        StmtTree::Loop(s) => lemma_loop(s),
        StmtTree::For(s) => lemma_for(s),
        StmtTree::While(s) => lemma_branch(s),
        StmtTree::Plain(s) => lemma_plain(s),
        StmtTree::ConstAssert(condition) => lemma_condition(condition),
        StmtTree::Declaration(decl) => lemma_decl(decl),
    }
}

proof fn lemma_block(tree: BlockTree)
    ensures
        tree.paths() == carried(tree.types()),
    decreases tree,
{
    broadcast use lemma_carried_sum;

    lemma_exprs(tree.attributes);
    lemma_stmts(tree.statements);
}

proof fn lemma_branch(tree: BranchTree)
    ensures
        tree.paths() == carried(tree.types()),
    decreases tree,
{
    broadcast use lemma_carried_sum;

    lemma_exprs(tree.attributes);
    lemma_expr(tree.condition);
    lemma_block(tree.body);
}

proof fn lemma_if(tree: IfTree)
    ensures
        tree.paths() == carried(tree.types()),
    decreases tree,
{
    broadcast use lemma_carried_sum;

    lemma_branch(tree.first);
    lemma_branches(tree.else_ifs);
    if let Some(branch) = tree.otherwise {
        lemma_else(branch);
    }
}

proof fn lemma_else(tree: ElseTree)
    ensures
        tree.paths() == carried(tree.types()),
    decreases tree,
{
    broadcast use lemma_carried_sum;

    lemma_exprs(tree.attributes);
    lemma_block(tree.body);
}

proof fn lemma_switch(tree: SwitchTree)
    ensures
        tree.paths() == carried(tree.types()),
    decreases tree,
{
    broadcast use lemma_carried_sum;

    lemma_exprs(tree.attributes);
    lemma_expr(tree.subject);
    lemma_exprs(tree.body_attributes);
    lemma_cases(tree.cases);
}

proof fn lemma_case(tree: CaseTree)
    ensures
        tree.paths() == carried(tree.types()),
    decreases tree,
{
    broadcast use lemma_carried_sum;

    lemma_exprs(tree.attributes);
    lemma_selectors(tree.selectors);
    lemma_block(tree.body);
}

proof fn lemma_selector(tree: SelectorTree)
    ensures
        tree.paths() == carried(tree.types()),
{
    broadcast use lemma_carried_sum;

    match tree {
        SelectorTree::Default => {},
        SelectorTree::Value(e) => lemma_expr(e),
    }
}

proof fn lemma_loop(tree: LoopTree)
    ensures
        tree.paths() == carried(tree.types()),
    decreases tree,
{
    broadcast use lemma_carried_sum;

    lemma_exprs(tree.attributes);
    lemma_block(tree.body);
    if let Some(c) = tree.continuing {
        lemma_continuing(c);
    }
}

proof fn lemma_continuing(tree: ContinuingTree)
    ensures
        tree.paths() == carried(tree.types()),
    decreases tree,
{
    broadcast use lemma_carried_sum;

    lemma_exprs(tree.attributes);
    lemma_block(tree.body);
    if let Some(condition) = tree.break_if {
        lemma_condition(condition);
    }
}

proof fn lemma_for(tree: ForTree)
    ensures
        tree.paths() == carried(tree.types()),
    decreases tree,
{
    broadcast use lemma_carried_sum;

    lemma_exprs(tree.attributes);
    if let Some(s) = tree.initializer {
        lemma_stmt(*s);
    }
    lemma_optional_expr(tree.condition);
    if let Some(s) = tree.update {
        lemma_stmt(*s);
    }
    lemma_block(tree.body);
}

proof fn lemma_stmts(list: Seq<StmtTree>)
    ensures
        stmt_list_paths(list) == carried(stmt_list_types(list)),
    decreases list,
{
    broadcast use lemma_carried_sum;

    if list.len() > 0 {
        lemma_stmts(list.drop_last());
        lemma_stmt(list.last());
    }
}

proof fn lemma_branches(list: Seq<BranchTree>)
    ensures
        branch_list_paths(list) == carried(branch_list_types(list)),
    decreases list,
{
    broadcast use lemma_carried_sum;

    if list.len() > 0 {
        lemma_branches(list.drop_last());
        lemma_branch(list.last());
    }
}

proof fn lemma_cases(list: Seq<CaseTree>)
    ensures
        case_list_paths(list) == carried(case_list_types(list)),
    decreases list,
{
    broadcast use lemma_carried_sum;

    if list.len() > 0 {
        lemma_cases(list.drop_last());
        lemma_case(list.last());
    }
}

proof fn lemma_selectors(list: Seq<SelectorTree>)
    ensures
        selector_list_paths(list) == carried(selector_list_types(list)),
    decreases list,
{
    broadcast use lemma_carried_sum;

    if list.len() > 0 {
        lemma_selectors(list.drop_last());
        lemma_selector(list.last());
    }
}

proof fn lemma_typed_names(list: Seq<TypedTree>)
    ensures
        typed_list_paths(list) == carried(typed_list_types(list)),
    decreases list,
{
    broadcast use lemma_carried_sum;

    if list.len() > 0 {
        lemma_typed_names(list.drop_last());
        lemma_typed(list.last());
    }
}

proof fn lemma_struct(tree: StructTree)
    ensures
        tree.paths() == carried(tree.types()),
{
    broadcast use lemma_carried_sum;

    lemma_exprs(tree.attributes);
    lemma_typed_names(tree.members);
}

proof fn lemma_function(tree: FunctionTree)
    ensures
        tree.paths() == carried(tree.types()),
{
    broadcast use lemma_carried_sum;

    lemma_exprs(tree.attributes);
    lemma_typed_names(tree.parameters);
    lemma_exprs(tree.return_attributes);
    lemma_optional_type(tree.return_type);
    lemma_block(tree.body);
}

proof fn lemma_global(tree: GlobalTree)
    ensures
        tree.paths() == carried(tree.types()),
{
    broadcast use lemma_carried_sum;

    match tree {
        GlobalTree::Void => {},
        GlobalTree::Declaration(decl) => lemma_decl(decl),
        GlobalTree::TypeAlias(alias) => lemma_typed(alias),
        GlobalTree::Struct(decl) => lemma_struct(decl),
        GlobalTree::Function(function) => lemma_function(function),
        GlobalTree::ConstAssert(condition) => lemma_condition(condition),
    }
}

proof fn lemma_globals(list: Seq<GlobalTree>)
    ensures
        global_list_paths(list) == carried(global_list_types(list)),
    decreases list,
{
    broadcast use lemma_carried_sum;

    if list.len() > 0 {
        lemma_globals(list.drop_last());
        lemma_global(list.last());
    }
}

/// A path is carried for each type expression that has one.
proof fn lemma_carried_count(types: Seq<TypeTree>)
    ensures
        carried(types).len() == qualified_count(types),
    decreases types.len(),
{
    if types.len() > 0 {
        lemma_carried_count(types.drop_last());
    }
}

/// The paths at the use sites are those that the type expressions of the source carry, in the
/// order of the source: none is missed, none is added, and one that is written twice counts twice.
pub proof fn law_paths_are_those_of_the_types(unit: UnitTree)
    ensures
        unit.paths() == carried(unit.types()),
        unit.paths().len() == qualified_count(unit.types()),
{
    lemma_globals(unit.declarations);
    lemma_carried_count(unit.types());
}

}
