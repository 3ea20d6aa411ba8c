//! Reads the syntax tree of the `wesl` crate.
//!
//! Each kind of node of that tree is opaque here. What a node says is named by a function of the
//! node (`wesl_expression` for an expression, and so on), and one function per kind looks at a
//! node and hands out its parts. A tree read here is fresh from the parser: nothing else holds
//! its identifiers, so nothing renames them meanwhile.

use vstd::prelude::*;

use crate::literal::is_lexable;
use crate::path::{copy_texts, of_wesl, wesl_path};
use crate::syntax::{
    branch_trees, case_trees, entry_trees, expr_trees, global_trees, import_trees,
    optional_expr, optional_text, optional_type, selector_trees, stmt_trees, typed_trees,
    Action, ActionTree, Block, BlockTree, Branch, BranchTree, CallExpr, CallTree, CaseTree,
    Condition, ConditionTree, Continuing, ContinuingTree, Decl, DeclTree, ElseBranch, ElseTree,
    EntryTree, Expr, ExprTree, ForStmt, ForTree, FunctionDecl, FunctionTree, GlobalDecl,
    GlobalTree, IfStmt, IfTree, ImportEntry, ImportStmt, ImportTree, Imported, ImportedTree,
    LoopStmt, LoopTree, PlainStmt, Selector, SelectorTree, Stmt, StmtTree, StructDecl,
    StructTree, SwitchCase, SwitchStmt, SwitchTree, TypeExpr, TypeTree, TypedName, TypedTree,
    Unit, UnitTree,
};
use crate::text::texts;
use wesl::syntax::{
    Attribute, BreakIfStatement, CaseSelector, CompoundStatement, ConstAssert, ContinuingStatement,
    CustomAttribute, Declaration, ElseClause, ElseIfClause, Expression, ForStatement,
    FormalParameter, Function, FunctionCall, GlobalDeclaration, IfStatement, Import, ImportContent,
    ImportStatement, LoopStatement, Statement, Struct, StructMember, SwitchClause, SwitchStatement,
    TranslationUnit, TypeAlias, TypeExpression, WhileStatement, WorkgroupSizeAttribute,
};

verus! {

/// The node of the `wesl` crate for an expression.
#[verifier::external_type_specification]
#[verifier::external_body]
pub struct ExExpression(wesl::syntax::Expression);

/// The node of the `wesl` crate for the name of a type, a function or a value.
#[verifier::external_type_specification]
#[verifier::external_body]
pub struct ExTypeExpression(wesl::syntax::TypeExpression);

/// The node of the `wesl` crate for a call.
#[verifier::external_type_specification]
#[verifier::external_body]
pub struct ExFunctionCall(wesl::syntax::FunctionCall);

/// What an expression says.
pub uninterp spec fn wesl_expression(expr: wesl::syntax::Expression) -> ExprTree;

/// What a type expression says.
pub uninterp spec fn wesl_type(ty: wesl::syntax::TypeExpression) -> TypeTree;

/// What a call says.
pub uninterp spec fn wesl_call(call: wesl::syntax::FunctionCall) -> CallTree;

/// What each expression of a list says.
pub open spec fn wesl_expressions(list: Seq<&Expression>) -> Seq<ExprTree> {
    list.map_values(|e: &Expression| wesl_expression(*e))
}

/// An expression and the nodes right below it.
pub enum ExpressionParts<'a> {
    Literal,
    Parenthesized(&'a Expression),
    NamedComponent(&'a Expression),
    Indexing(&'a Expression, &'a Expression),
    Unary(&'a Expression),
    Binary(&'a Expression, &'a Expression),
    Call(&'a FunctionCall),
    Type(&'a TypeExpression),
}

impl<'a> ExpressionParts<'a> {
    pub open spec fn tree(self) -> ExprTree {
        match self {
            ExpressionParts::Literal => ExprTree::Literal,
            ExpressionParts::Parenthesized(e) => ExprTree::Parenthesized(
                Box::new(wesl_expression(*e)),
            ),
            ExpressionParts::NamedComponent(e) => ExprTree::NamedComponent(
                Box::new(wesl_expression(*e)),
            ),
            ExpressionParts::Indexing(a, b) => ExprTree::Indexing(
                Box::new(wesl_expression(*a)),
                Box::new(wesl_expression(*b)),
            ),
            ExpressionParts::Unary(e) => ExprTree::Unary(Box::new(wesl_expression(*e))),
            ExpressionParts::Binary(a, b) => ExprTree::Binary(
                Box::new(wesl_expression(*a)),
                Box::new(wesl_expression(*b)),
            ),
            ExpressionParts::Call(call) => ExprTree::Call(wesl_call(*call)),
            ExpressionParts::Type(ty) => ExprTree::Type(wesl_type(*ty)),
        }
    }
}

/// Tells the variants of `Expression` apart and borrows what each holds; a literal's value is
/// left out.
#[verifier::external_body]
fn expression_parts<'a>(expr: &'a Expression) -> (r: ExpressionParts<'a>)
    ensures
        r.tree() == wesl_expression(*expr),
{
    match expr {
        Expression::Literal(_) => ExpressionParts::Literal,
        Expression::Parenthesized(x) => ExpressionParts::Parenthesized(&x.expression),
        Expression::NamedComponent(x) => ExpressionParts::NamedComponent(&x.base),
        Expression::Indexing(x) => ExpressionParts::Indexing(&x.base, &x.index),
        Expression::Unary(x) => ExpressionParts::Unary(&x.operand),
        Expression::Binary(x) => ExpressionParts::Binary(&x.left, &x.right),
        Expression::FunctionCall(x) => ExpressionParts::Call(x),
        Expression::TypeOrIdentifier(x) => ExpressionParts::Type(x),
    }
}

/// The `ty` and the `arguments` of a `FunctionCall`.
#[verifier::external_body]
fn call_parts<'a>(call: &'a FunctionCall) -> (r: (&'a TypeExpression, Vec<&'a Expression>))
    ensures
        wesl_call(*call) == (CallTree { ty: wesl_type(*r.0), arguments: wesl_expressions(r.1@) }),
{
    (&call.ty, call.arguments.iter().map(|e| e.node()).collect())
}

/// The parts of a type expression.
pub struct TypeParts<'a> {
    pub path: Option<&'a wesl::syntax::ModulePath>,
    pub name: String,
    pub template_args: Option<Vec<&'a Expression>>,
}

impl<'a> TypeParts<'a> {
    pub open spec fn tree(self) -> TypeTree {
        TypeTree {
            path: match self.path {
                Some(path) => Some(wesl_path(*path)),
                None => None,
            },
            name: self.name@,
            template_args: match self.template_args {
                Some(args) => Some(wesl_expressions(args@)),
                None => None,
            },
        }
    }
}

/// The `path` and the `template_args` of a `TypeExpression`, and its identifier written out.
#[verifier::external_body]
fn type_parts<'a>(ty: &'a TypeExpression) -> (r: TypeParts<'a>)
    ensures
        r.tree() == wesl_type(*ty),
{
    let args = ty.template_args.as_ref();
    TypeParts {
        path: ty.path.as_ref(),
        name: ty.ident.to_string(),
        template_args: args.map(|list| list.iter().map(|arg| arg.expression.node()).collect()),
    }
}

/// What stands below an expression is smaller than it.
proof fn lemma_below_expr(tree: ExprTree)
    ensures
        match tree {
            ExprTree::Literal => true,
            ExprTree::Parenthesized(e) => decreases_to!(tree => *e),
            ExprTree::NamedComponent(e) => decreases_to!(tree => *e),
            ExprTree::Indexing(a, b) => decreases_to!(tree => *a) && decreases_to!(tree => *b),
            ExprTree::Unary(e) => decreases_to!(tree => *e),
            ExprTree::Binary(a, b) => decreases_to!(tree => *a) && decreases_to!(tree => *b),
            ExprTree::Call(call) => decreases_to!(tree => call),
            ExprTree::Type(ty) => decreases_to!(tree => ty),
        },
{
}

fn read_expr(expr: &Expression) -> (r: Expr)
    ensures
        r.tree() == wesl_expression(*expr),
    decreases wesl_expression(*expr),
{
    proof {
        lemma_below_expr(wesl_expression(*expr));
    }
    match expression_parts(expr) {
        ExpressionParts::Literal => Expr::Literal,
        ExpressionParts::Parenthesized(e) => Expr::Parenthesized(Box::new(read_expr(e))),
        ExpressionParts::NamedComponent(e) => Expr::NamedComponent(Box::new(read_expr(e))),
        ExpressionParts::Indexing(a, b) => Expr::Indexing(
            Box::new(read_expr(a)),
            Box::new(read_expr(b)),
        ),
        ExpressionParts::Unary(e) => Expr::Unary(Box::new(read_expr(e))),
        ExpressionParts::Binary(a, b) => Expr::Binary(
            Box::new(read_expr(a)),
            Box::new(read_expr(b)),
        ),
        ExpressionParts::Call(call) => Expr::Call(read_call(call)),
        ExpressionParts::Type(ty) => Expr::Type(read_type(ty)),
    }
}

fn read_call(call: &FunctionCall) -> (r: CallExpr)
    ensures
        r.tree() == wesl_call(*call),
    decreases wesl_call(*call),
{
    let (ty, arguments) = call_parts(call);
    let ghost tree = wesl_call(*call);
    assert(decreases_to!(tree => tree.ty));
    assert(decreases_to!(tree => tree.arguments));
    CallExpr { ty: read_type(ty), arguments: read_exprs(&arguments) }
}

fn read_type(ty: &TypeExpression) -> (r: TypeExpr)
    ensures
        r.tree() == wesl_type(*ty),
    decreases wesl_type(*ty),
{
    let parts = type_parts(ty);
    let ghost tree = wesl_type(*ty);
    assert(tree.template_args matches Some(args) ==> decreases_to!(tree => args));
    TypeExpr {
        path: match parts.path {
            Some(p) => Some(of_wesl(p)),
            None => None,
        },
        name: parts.name,
        template_args: match &parts.template_args {
            Some(list) => Some(read_exprs(list)),
            None => None,
        },
    }
}

fn read_exprs(list: &Vec<&Expression>) -> (r: Vec<Expr>)
    ensures
        expr_trees(r@) == wesl_expressions(list@),
    decreases wesl_expressions(list@),
{
    let ghost trees = wesl_expressions(list@);
    let mut r: Vec<Expr> = Vec::new();
    let mut i: usize = 0;
    while i < list.len()
        invariant
            i <= list.len(),
            trees == wesl_expressions(list@),
            expr_trees(r@) == trees.take(i as int),
        decreases list.len() - i,
    {
        assert(trees[i as int] == wesl_expression(*list@[i as int]));
        assert(decreases_to!(trees => trees[i as int]));
        let ghost before = expr_trees(r@);
        let expr = read_expr(list[i]);
        let ghost shown = expr.tree();
        r.push(expr);
        assert(expr_trees(r@) == before.push(shown));
        i += 1;
    }
    r
}

/// The node of the `wesl` crate for an attribute.
#[verifier::external_type_specification]
#[verifier::external_body]
pub struct ExAttribute(wesl::syntax::Attribute);

/// The node of the `wesl` crate for a `@workgroup_size` attribute.
#[verifier::external_type_specification]
#[verifier::external_body]
pub struct ExWorkgroupSizeAttribute(wesl::syntax::WorkgroupSizeAttribute);

/// The node of the `wesl` crate for an attribute that WGSL does not know.
#[verifier::external_type_specification]
#[verifier::external_body]
pub struct ExCustomAttribute(wesl::syntax::CustomAttribute);

/// The node of the `wesl` crate for a declaration of a value.
#[verifier::external_type_specification]
#[verifier::external_body]
pub struct ExDeclaration(wesl::syntax::Declaration);

/// The node of the `wesl` crate for an assertion.
#[verifier::external_type_specification]
#[verifier::external_body]
pub struct ExConstAssert(wesl::syntax::ConstAssert);

/// The node of the `wesl` crate for a statement.
#[verifier::external_type_specification]
#[verifier::external_body]
pub struct ExStatement(wesl::syntax::Statement);

/// The node of the `wesl` crate for the statements between two braces.
#[verifier::external_type_specification]
#[verifier::external_body]
pub struct ExCompoundStatement(wesl::syntax::CompoundStatement);

/// The node of the `wesl` crate for an `if` statement.
#[verifier::external_type_specification]
#[verifier::external_body]
pub struct ExIfStatement(wesl::syntax::IfStatement);

/// The node of the `wesl` crate for an `else if` clause.
#[verifier::external_type_specification]
#[verifier::external_body]
pub struct ExElseIfClause(wesl::syntax::ElseIfClause);

/// The node of the `wesl` crate for an `else` clause.
#[verifier::external_type_specification]
#[verifier::external_body]
pub struct ExElseClause(wesl::syntax::ElseClause);

/// The node of the `wesl` crate for a `while` statement.
#[verifier::external_type_specification]
#[verifier::external_body]
pub struct ExWhileStatement(wesl::syntax::WhileStatement);

/// The node of the `wesl` crate for a `switch` statement.
#[verifier::external_type_specification]
#[verifier::external_body]
pub struct ExSwitchStatement(wesl::syntax::SwitchStatement);

/// The node of the `wesl` crate for a clause of a `switch` statement.
#[verifier::external_type_specification]
#[verifier::external_body]
pub struct ExSwitchClause(wesl::syntax::SwitchClause);

/// The node of the `wesl` crate for a selector of a `switch` clause.
#[verifier::external_type_specification]
#[verifier::external_body]
pub struct ExCaseSelector(wesl::syntax::CaseSelector);

/// The node of the `wesl` crate for a `loop` statement.
#[verifier::external_type_specification]
#[verifier::external_body]
pub struct ExLoopStatement(wesl::syntax::LoopStatement);

/// The node of the `wesl` crate for a `continuing` statement.
#[verifier::external_type_specification]
#[verifier::external_body]
pub struct ExContinuingStatement(wesl::syntax::ContinuingStatement);

/// The node of the `wesl` crate for a `break if` statement.
#[verifier::external_type_specification]
#[verifier::external_body]
pub struct ExBreakIfStatement(wesl::syntax::BreakIfStatement);

/// The node of the `wesl` crate for a `for` statement.
#[verifier::external_type_specification]
#[verifier::external_body]
pub struct ExForStatement(wesl::syntax::ForStatement);

/// What an attribute says.
pub enum AttributeTree {
    /// A word, or names that WGSL fixes.
    Plain,
    /// A value.
    Value(ExprTree),
    /// The one to three numbers of a `@workgroup_size`.
    Size(Seq<ExprTree>),
    /// The condition of an `@if` or an `@elif`.
    Condition(ExprTree),
    /// The arguments of an attribute that WGSL does not know.
    Custom(Seq<ExprTree>),
}

impl AttributeTree {
    /// The values that the attribute is given, in order. A condition is none: it speaks of
    /// features.
    pub open spec fn values(self) -> Seq<ExprTree> {
        match self {
            AttributeTree::Plain => Seq::empty(),
            AttributeTree::Value(e) => seq![e],
            AttributeTree::Size(list) => list,
            AttributeTree::Condition(_) => Seq::empty(),
            AttributeTree::Custom(list) => list,
        }
    }
}

/// What an attribute says.
pub uninterp spec fn wesl_attribute(attribute: wesl::syntax::Attribute) -> AttributeTree;

/// The numbers of a `@workgroup_size` attribute, in order.
pub uninterp spec fn wesl_workgroup_size(
    size: wesl::syntax::WorkgroupSizeAttribute,
) -> Seq<ExprTree>;

/// The arguments of an attribute that WGSL does not know, in order.
pub uninterp spec fn wesl_custom(custom: wesl::syntax::CustomAttribute) -> Seq<ExprTree>;

/// What a declaration says.
pub uninterp spec fn wesl_declaration(declaration: wesl::syntax::Declaration) -> DeclTree;

/// What an assertion says.
pub uninterp spec fn wesl_const_assert(stmt: wesl::syntax::ConstAssert) -> ConditionTree;

/// What a statement says.
pub uninterp spec fn wesl_statement(stmt: wesl::syntax::Statement) -> StmtTree;

/// What the statements between two braces say.
pub uninterp spec fn wesl_body(body: wesl::syntax::CompoundStatement) -> BlockTree;

/// What an `if` statement says.
pub uninterp spec fn wesl_if(stmt: wesl::syntax::IfStatement) -> IfTree;

/// What an `else if` clause says.
pub uninterp spec fn wesl_else_if(clause: wesl::syntax::ElseIfClause) -> BranchTree;

/// What an `else` clause says.
pub uninterp spec fn wesl_else(clause: wesl::syntax::ElseClause) -> ElseTree;

/// What a `while` statement says.
pub uninterp spec fn wesl_while(stmt: wesl::syntax::WhileStatement) -> BranchTree;

/// What a `switch` statement says.
pub uninterp spec fn wesl_switch(stmt: wesl::syntax::SwitchStatement) -> SwitchTree;

/// What a clause of a `switch` statement says.
pub uninterp spec fn wesl_clause(clause: wesl::syntax::SwitchClause) -> CaseTree;

/// What a selector of a `switch` clause says.
pub uninterp spec fn wesl_selector(selector: wesl::syntax::CaseSelector) -> SelectorTree;

/// What a `loop` statement says.
pub uninterp spec fn wesl_loop(stmt: wesl::syntax::LoopStatement) -> LoopTree;

/// What a `continuing` statement says.
pub uninterp spec fn wesl_continuing(stmt: wesl::syntax::ContinuingStatement) -> ContinuingTree;

/// What a `break if` statement says.
pub uninterp spec fn wesl_break_if(stmt: wesl::syntax::BreakIfStatement) -> ConditionTree;

/// What a `for` statement says.
pub uninterp spec fn wesl_for(stmt: wesl::syntax::ForStatement) -> ForTree;

/// The values that a list of attributes is given, in order.
pub open spec fn wesl_attributes(list: Seq<&Attribute>) -> Seq<ExprTree>
    decreases list.len(),
{
    if list.len() == 0 {
        Seq::empty()
    } else {
        wesl_attributes(list.drop_last()) + wesl_attribute(*list.last()).values()
    }
}

/// What an expression says, where there is one.
pub open spec fn wesl_optional_expression(expr: Option<&Expression>) -> Option<ExprTree> {
    match expr {
        Some(e) => Some(wesl_expression(*e)),
        None => None,
    }
}

/// What a type expression says, where there is one.
pub open spec fn wesl_optional_type(ty: Option<&TypeExpression>) -> Option<TypeTree> {
    match ty {
        Some(t) => Some(wesl_type(*t)),
        None => None,
    }
}

/// What each statement of a list says.
pub open spec fn wesl_statements(list: Seq<&Statement>) -> Seq<StmtTree> {
    list.map_values(|s: &Statement| wesl_statement(*s))
}

/// What each `else if` clause of a list says.
pub open spec fn wesl_else_ifs(list: Seq<ElseIfClause>) -> Seq<BranchTree> {
    list.map_values(|c: ElseIfClause| wesl_else_if(c))
}

/// What each `switch` clause of a list says.
pub open spec fn wesl_clauses(list: Seq<SwitchClause>) -> Seq<CaseTree> {
    list.map_values(|c: SwitchClause| wesl_clause(c))
}

/// What each selector of a list says.
pub open spec fn wesl_selectors(list: Seq<CaseSelector>) -> Seq<SelectorTree> {
    list.map_values(|s: CaseSelector| wesl_selector(s))
}

/// An attribute and the nodes right below it.
pub enum AttributeParts<'a> {
    Plain,
    Value(&'a Expression),
    Size(&'a WorkgroupSizeAttribute),
    Condition(&'a Expression),
    Custom(&'a CustomAttribute),
}

impl<'a> AttributeParts<'a> {
    pub open spec fn tree(self) -> AttributeTree {
        match self {
            AttributeParts::Plain => AttributeTree::Plain,
            AttributeParts::Value(e) => AttributeTree::Value(wesl_expression(*e)),
            AttributeParts::Size(size) => AttributeTree::Size(wesl_workgroup_size(*size)),
            AttributeParts::Condition(e) => AttributeTree::Condition(wesl_expression(*e)),
            AttributeParts::Custom(custom) => AttributeTree::Custom(wesl_custom(*custom)),
        }
    }
}

/// Tells the variants of `Attribute` apart, and borrows the expression or the node that each one
/// holds. Those that hold neither are plain.
#[verifier::external_body]
fn attribute_parts<'a>(attribute: &'a Attribute) -> (r: AttributeParts<'a>)
    ensures
        r.tree() == wesl_attribute(*attribute),
{
    match attribute {
        Attribute::Align(e) | Attribute::Binding(e) | Attribute::BlendSrc(e) | Attribute::Group(e)
        | Attribute::Id(e) | Attribute::Location(e) | Attribute::Size(e) => {
            AttributeParts::Value(e)
        },
        Attribute::WorkgroupSize(size) => AttributeParts::Size(size),
        Attribute::If(e) | Attribute::Elif(e) => AttributeParts::Condition(e),
        Attribute::Custom(custom) => AttributeParts::Custom(custom),
        Attribute::Builtin(_) | Attribute::Diagnostic(_) | Attribute::Interpolate(_)
        | Attribute::Const | Attribute::Invariant | Attribute::MustUse | Attribute::Vertex
        | Attribute::Fragment | Attribute::Compute | Attribute::Publish | Attribute::Else => {
            AttributeParts::Plain
        },
    }
}

/// What an expression says, as a list that is empty where there is none.
pub open spec fn wesl_listed_expression(expr: Option<&Expression>) -> Seq<ExprTree> {
    match expr {
        Some(e) => seq![wesl_expression(*e)],
        None => Seq::empty(),
    }
}

/// The `x`, the `y` and the `z` of a `WorkgroupSizeAttribute`.
#[verifier::external_body]
fn workgroup_size_parts<'a>(size: &'a WorkgroupSizeAttribute) -> (r: (
    &'a Expression,
    Option<&'a Expression>,
    Option<&'a Expression>,
))
    ensures
        wesl_workgroup_size(*size) == seq![wesl_expression(*r.0)] + wesl_listed_expression(r.1)
            + wesl_listed_expression(r.2),
{
    (&size.x, size.y.as_deref(), size.z.as_deref())
}

/// The `arguments` of a `CustomAttribute`, where it has any.
#[verifier::external_body]
fn custom_parts<'a>(custom: &'a CustomAttribute) -> (r: Option<Vec<&'a Expression>>)
    ensures
        wesl_custom(*custom) == match r {
            Some(list) => wesl_expressions(list@),
            None => Seq::empty(),
        },
{
    let list = custom.arguments.as_ref();
    list.map(|l| l.iter().map(|e| e.node()).collect())
}

/// The parts of a declaration.
pub struct DeclarationParts<'a> {
    pub attributes: Vec<&'a Attribute>,
    pub name: String,
    pub ty: Option<&'a TypeExpression>,
    pub initializer: Option<&'a Expression>,
}

impl<'a> DeclarationParts<'a> {
    pub open spec fn tree(self) -> DeclTree {
        DeclTree {
            attributes: wesl_attributes(self.attributes@),
            name: self.name@,
            ty: wesl_optional_type(self.ty),
            initializer: wesl_optional_expression(self.initializer),
        }
    }
}

/// The `attributes`, the `ty` and the `initializer` of a `Declaration`, and its identifier written
/// out.
#[verifier::external_body]
fn declaration_parts<'a>(declaration: &'a Declaration) -> (r: DeclarationParts<'a>)
    ensures
        r.tree() == wesl_declaration(*declaration),
{
    DeclarationParts {
        attributes: declaration.attributes.iter().map(|a| a.node()).collect(),
        name: declaration.ident.to_string(),
        ty: declaration.ty.as_ref(),
        initializer: declaration.initializer.as_deref(),
    }
}

/// The `attributes` and the `expression` of a `ConstAssert`.
#[verifier::external_body]
fn const_assert_parts<'a>(stmt: &'a ConstAssert) -> (r: (Vec<&'a Attribute>, &'a Expression))
    ensures
        wesl_const_assert(*stmt) == (ConditionTree {
            attributes: wesl_attributes(r.0@),
            value: wesl_expression(*r.1),
        }),
{
    (stmt.attributes.iter().map(|a| a.node()).collect(), &stmt.expression)
}

/// The `attributes` and the `expression` of a `BreakIfStatement`.
#[verifier::external_body]
fn break_if_parts<'a>(stmt: &'a BreakIfStatement) -> (r: (Vec<&'a Attribute>, &'a Expression))
    ensures
        wesl_break_if(*stmt) == (ConditionTree {
            attributes: wesl_attributes(r.0@),
            value: wesl_expression(*r.1),
        }),
{
    (stmt.attributes.iter().map(|a| a.node()).collect(), &stmt.expression)
}

/// The `attributes` and the `statements` of a `CompoundStatement`.
#[verifier::external_body]
fn body_parts<'a>(body: &'a CompoundStatement) -> (r: (Vec<&'a Attribute>, Vec<&'a Statement>))
    ensures
        wesl_body(*body) == (BlockTree {
            attributes: wesl_attributes(r.0@),
            statements: wesl_statements(r.1@),
        }),
{
    let attributes = body.attributes.iter().map(|a| a.node()).collect();
    (attributes, body.statements.iter().map(|s| s.node()).collect())
}

/// A statement that holds other statements or declares or asserts something, and the node right
/// below it.
pub enum StatementParts<'a> {
    Void,
    Compound(&'a CompoundStatement),
    If(&'a IfStatement),
    Switch(&'a SwitchStatement),
    Loop(&'a LoopStatement),
    For(&'a ForStatement),
    While(&'a WhileStatement),
    ConstAssert(&'a ConstAssert),
    Declaration(&'a Declaration),
}

impl<'a> StatementParts<'a> {
    pub open spec fn tree(self) -> StmtTree {
        match self {
            StatementParts::Void => StmtTree::Void,
            StatementParts::Compound(body) => StmtTree::Compound(wesl_body(*body)),
            StatementParts::If(s) => StmtTree::If(wesl_if(*s)),
            StatementParts::Switch(s) => StmtTree::Switch(wesl_switch(*s)),
            StatementParts::Loop(s) => StmtTree::Loop(wesl_loop(*s)),
            StatementParts::For(s) => StmtTree::For(wesl_for(*s)),
            StatementParts::While(s) => StmtTree::While(wesl_while(*s)),
            StatementParts::ConstAssert(s) => StmtTree::ConstAssert(wesl_const_assert(*s)),
            StatementParts::Declaration(d) => StmtTree::Declaration(wesl_declaration(*d)),
        }
    }
}

/// Tells apart the variants of `Statement` that are no plain statements, and borrows what each
/// holds.
#[verifier::external_body]
fn statement_parts<'a>(stmt: &'a Statement) -> (r: Option<StatementParts<'a>>)
    ensures
        match r {
            Some(parts) => parts.tree() == wesl_statement(*stmt),
            None => wesl_statement(*stmt) is Plain,
        },
{
    Some(match stmt {
        Statement::Void => StatementParts::Void,
        Statement::Compound(x) => StatementParts::Compound(x),
        Statement::If(x) => StatementParts::If(x),
        Statement::Switch(x) => StatementParts::Switch(x),
        Statement::Loop(x) => StatementParts::Loop(x),
        Statement::For(x) => StatementParts::For(x),
        Statement::While(x) => StatementParts::While(x),
        Statement::ConstAssert(x) => StatementParts::ConstAssert(x),
        Statement::Declaration(x) => StatementParts::Declaration(x),
        _ => return None,
    })
}

/// What a plain statement does, and the nodes right below it.
pub enum ActionParts<'a> {
    Assignment(&'a Expression, &'a Expression),
    Increment(&'a Expression),
    Decrement(&'a Expression),
    Break,
    Continue,
    Return(Option<&'a Expression>),
    Discard,
    Call(&'a FunctionCall),
}

impl<'a> ActionParts<'a> {
    pub open spec fn tree(self) -> ActionTree {
        match self {
            ActionParts::Assignment(lhs, rhs) => ActionTree::Assignment(
                wesl_expression(*lhs),
                wesl_expression(*rhs),
            ),
            ActionParts::Increment(e) => ActionTree::Increment(wesl_expression(*e)),
            ActionParts::Decrement(e) => ActionTree::Decrement(wesl_expression(*e)),
            ActionParts::Break => ActionTree::Break,
            ActionParts::Continue => ActionTree::Continue,
            ActionParts::Return(e) => ActionTree::Return(wesl_optional_expression(e)),
            ActionParts::Discard => ActionTree::Discard,
            ActionParts::Call(call) => ActionTree::Call(wesl_call(*call)),
        }
    }
}

/// Tells apart the variants of `Statement` that are plain statements, and borrows what each holds
/// besides its attributes.
#[verifier::external_body]
fn action_parts<'a>(stmt: &'a Statement) -> (r: Option<ActionParts<'a>>)
    ensures
        match r {
            Some(parts) => wesl_statement(*stmt) matches StmtTree::Plain(s) && s.action
                == parts.tree(),
            None => !(wesl_statement(*stmt) is Plain),
        },
{
    Some(match stmt {
        Statement::Assignment(x) => ActionParts::Assignment(&x.lhs, &x.rhs),
        Statement::Increment(x) => ActionParts::Increment(&x.expression),
        Statement::Decrement(x) => ActionParts::Decrement(&x.expression),
        Statement::Break(_) => ActionParts::Break,
        Statement::Continue(_) => ActionParts::Continue,
        Statement::Return(x) => ActionParts::Return(x.expression.as_deref()),
        Statement::Discard(_) => ActionParts::Discard,
        Statement::FunctionCall(x) => ActionParts::Call(&x.call),
        _ => return None,
    })
}

/// The `attributes` of each variant of `Statement` that is a plain statement.
#[verifier::external_body]
fn action_attributes<'a>(stmt: &'a Statement) -> (r: Vec<&'a Attribute>)
    ensures
        wesl_statement(*stmt) matches StmtTree::Plain(s) ==> wesl_attributes(r@) == s.attributes,
{
    let attributes = match stmt {
        Statement::Assignment(x) => &x.attributes,
        Statement::Increment(x) => &x.attributes,
        Statement::Decrement(x) => &x.attributes,
        Statement::Break(x) => &x.attributes,
        Statement::Continue(x) => &x.attributes,
        Statement::Return(x) => &x.attributes,
        Statement::Discard(x) => &x.attributes,
        Statement::FunctionCall(x) => &x.attributes,
        _ => return Vec::new(),
    };
    attributes.iter().map(|a| a.node()).collect()
}

/// The attributes, the condition and the body of a branch.
pub struct BranchParts<'a> {
    pub attributes: Vec<&'a Attribute>,
    pub condition: &'a Expression,
    pub body: &'a CompoundStatement,
}

impl<'a> BranchParts<'a> {
    pub open spec fn tree(self) -> BranchTree {
        BranchTree {
            attributes: wesl_attributes(self.attributes@),
            condition: wesl_expression(*self.condition),
            body: wesl_body(*self.body),
        }
    }
}

/// The parts of an `if` statement.
pub struct IfParts<'a> {
    pub first: BranchParts<'a>,
    pub else_ifs: &'a Vec<ElseIfClause>,
    pub otherwise: Option<&'a ElseClause>,
}

impl<'a> IfParts<'a> {
    pub open spec fn tree(self) -> IfTree {
        IfTree {
            first: self.first.tree(),
            else_ifs: wesl_else_ifs(self.else_ifs@),
            otherwise: match self.otherwise {
                Some(clause) => Some(wesl_else(*clause)),
                None => None,
            },
        }
    }
}

/// The `attributes` and the clauses of an `IfStatement`.
#[verifier::external_body]
fn if_parts<'a>(stmt: &'a IfStatement) -> (r: IfParts<'a>)
    ensures
        r.tree() == wesl_if(*stmt),
{
    IfParts {
        first: BranchParts {
            attributes: stmt.attributes.iter().map(|a| a.node()).collect(),
            condition: &stmt.if_clause.expression,
            body: &stmt.if_clause.body,
        },
        else_ifs: &stmt.else_if_clauses,
        otherwise: stmt.else_clause.as_ref(),
    }
}

/// The fields of an `ElseIfClause`.
#[verifier::external_body]
fn else_if_parts<'a>(clause: &'a ElseIfClause) -> (r: BranchParts<'a>)
    ensures
        r.tree() == wesl_else_if(*clause),
{
    BranchParts {
        attributes: clause.attributes.iter().map(|a| a.node()).collect(),
        condition: &clause.expression,
        body: &clause.body,
    }
}

/// The fields of a `WhileStatement`.
#[verifier::external_body]
fn while_parts<'a>(stmt: &'a WhileStatement) -> (r: BranchParts<'a>)
    ensures
        r.tree() == wesl_while(*stmt),
{
    BranchParts {
        attributes: stmt.attributes.iter().map(|a| a.node()).collect(),
        condition: &stmt.condition,
        body: &stmt.body,
    }
}

/// The fields of an `ElseClause`.
#[verifier::external_body]
fn else_parts<'a>(clause: &'a ElseClause) -> (r: (Vec<&'a Attribute>, &'a CompoundStatement))
    ensures
        wesl_else(*clause) == (ElseTree {
            attributes: wesl_attributes(r.0@),
            body: wesl_body(*r.1),
        }),
{
    (clause.attributes.iter().map(|a| a.node()).collect(), &clause.body)
}

/// The parts of a `switch` statement.
pub struct SwitchParts<'a> {
    pub attributes: Vec<&'a Attribute>,
    pub subject: &'a Expression,
    pub body_attributes: Vec<&'a Attribute>,
    pub clauses: &'a Vec<SwitchClause>,
}

impl<'a> SwitchParts<'a> {
    pub open spec fn tree(self) -> SwitchTree {
        SwitchTree {
            attributes: wesl_attributes(self.attributes@),
            subject: wesl_expression(*self.subject),
            body_attributes: wesl_attributes(self.body_attributes@),
            cases: wesl_clauses(self.clauses@),
        }
    }
}

/// The fields of a `SwitchStatement`.
#[verifier::external_body]
fn switch_parts<'a>(stmt: &'a SwitchStatement) -> (r: SwitchParts<'a>)
    ensures
        r.tree() == wesl_switch(*stmt),
{
    SwitchParts {
        attributes: stmt.attributes.iter().map(|a| a.node()).collect(),
        subject: &stmt.expression,
        body_attributes: stmt.body_attributes.iter().map(|a| a.node()).collect(),
        clauses: &stmt.clauses,
    }
}

/// The fields of a `SwitchClause`.
#[verifier::external_body]
fn clause_parts<'a>(
    clause: &'a SwitchClause,
) -> (r: (Vec<&'a Attribute>, &'a Vec<CaseSelector>, &'a CompoundStatement))
    ensures
        wesl_clause(*clause) == (CaseTree {
            attributes: wesl_attributes(r.0@),
            selectors: wesl_selectors(r.1@),
            body: wesl_body(*r.2),
        }),
{
    let attributes = clause.attributes.iter().map(|a| a.node()).collect();
    (attributes, &clause.case_selectors, &clause.body)
}

/// The expression of a `CaseSelector`; `default` has none.
#[verifier::external_body]
fn selector_parts<'a>(selector: &'a CaseSelector) -> (r: Option<&'a Expression>)
    ensures
        wesl_selector(*selector) == (match r {
            Some(e) => SelectorTree::Value(wesl_expression(*e)),
            None => SelectorTree::Default,
        }),
{
    match selector {
        CaseSelector::Default => None,
        CaseSelector::Expression(e) => Some(e),
    }
}

/// The fields of a `LoopStatement`.
#[verifier::external_body]
fn loop_parts<'a>(
    stmt: &'a LoopStatement,
) -> (r: (Vec<&'a Attribute>, &'a CompoundStatement, Option<&'a ContinuingStatement>))
    ensures
        wesl_loop(*stmt) == (LoopTree {
            attributes: wesl_attributes(r.0@),
            body: wesl_body(*r.1),
            continuing: match r.2 {
                Some(c) => Some(wesl_continuing(*c)),
                None => None,
            },
        }),
{
    let attributes = stmt.attributes.iter().map(|a| a.node()).collect();
    (attributes, &stmt.body, stmt.continuing.as_ref())
}

/// The fields of a `ContinuingStatement`.
#[verifier::external_body]
fn continuing_parts<'a>(
    stmt: &'a ContinuingStatement,
) -> (r: (Vec<&'a Attribute>, &'a CompoundStatement, Option<&'a BreakIfStatement>))
    ensures
        wesl_continuing(*stmt) == (ContinuingTree {
            attributes: wesl_attributes(r.0@),
            body: wesl_body(*r.1),
            break_if: match r.2 {
                Some(b) => Some(wesl_break_if(*b)),
                None => None,
            },
        }),
{
    let attributes = stmt.attributes.iter().map(|a| a.node()).collect();
    (attributes, &stmt.body, stmt.break_if.as_ref())
}

/// The parts of a `for` statement.
pub struct ForParts<'a> {
    pub attributes: Vec<&'a Attribute>,
    pub initializer: Option<&'a Statement>,
    pub condition: Option<&'a Expression>,
    pub update: Option<&'a Statement>,
    pub body: &'a CompoundStatement,
}

impl<'a> ForParts<'a> {
    pub open spec fn tree(self) -> ForTree {
        ForTree {
            attributes: wesl_attributes(self.attributes@),
            initializer: match self.initializer {
                Some(s) => Some(Box::new(wesl_statement(*s))),
                None => None,
            },
            condition: wesl_optional_expression(self.condition),
            update: match self.update {
                Some(s) => Some(Box::new(wesl_statement(*s))),
                None => None,
            },
            body: wesl_body(*self.body),
        }
    }
}

/// The fields of a `ForStatement`.
#[verifier::external_body]
fn for_parts<'a>(stmt: &'a ForStatement) -> (r: ForParts<'a>)
    ensures
        r.tree() == wesl_for(*stmt),
{
    ForParts {
        attributes: stmt.attributes.iter().map(|a| a.node()).collect(),
        initializer: stmt.initializer.as_deref(),
        condition: stmt.condition.as_deref(),
        update: stmt.update.as_deref(),
        body: &stmt.body,
    }
}

fn read_optional_expr(expr: Option<&Expression>) -> (r: Option<Expr>)
    ensures
        optional_expr(r) == wesl_optional_expression(expr),
{
    match expr {
        Some(e) => Some(read_expr(e)),
        None => None,
    }
}

fn read_optional_type(ty: Option<&TypeExpression>) -> (r: Option<TypeExpr>)
    ensures
        optional_type(r) == wesl_optional_type(ty),
{
    match ty {
        Some(t) => Some(read_type(t)),
        None => None,
    }
}

fn read_attribute(attribute: &Attribute) -> (r: Vec<Expr>)
    ensures
        expr_trees(r@) == wesl_attribute(*attribute).values(),
{
    let mut r: Vec<Expr> = Vec::new();
    assert(expr_trees(r@) == Seq::<ExprTree>::empty());
    match attribute_parts(attribute) {
        AttributeParts::Plain | AttributeParts::Condition(_) => {},
        AttributeParts::Value(e) => {
            r.push(read_expr(e));
            assert(expr_trees(r@) == seq![wesl_expression(*e)]);
        },
        AttributeParts::Size(size) => {
            let (x, y, z) = workgroup_size_parts(size);
            r.push(read_expr(x));
            assert(expr_trees(r@) == seq![wesl_expression(*x)]);
            push_read(&mut r, y);
            push_read(&mut r, z);
        },
        AttributeParts::Custom(custom) => {
            if let Some(list) = custom_parts(custom) {
                r = read_exprs(&list);
            }
        },
    }
    r
}

fn push_read(list: &mut Vec<Expr>, expr: Option<&Expression>)
    ensures
        expr_trees(final(list)@) == expr_trees(old(list)@) + wesl_listed_expression(expr),
{
    let ghost before = expr_trees(list@);
    match expr {
        Some(e) => {
            list.push(read_expr(e));
            assert(expr_trees(list@) == before.push(wesl_expression(*e)));
        },
        None => {},
    }
}

fn read_attributes(list: &Vec<&Attribute>) -> (r: Vec<Expr>)
    ensures
        expr_trees(r@) == wesl_attributes(list@),
{
    let mut r: Vec<Expr> = Vec::new();
    assert(expr_trees(r@) == Seq::<ExprTree>::empty());
    let mut i: usize = 0;
    while i < list.len()
        invariant
            i <= list.len(),
            expr_trees(r@) == wesl_attributes(list@.take(i as int)),
        decreases list.len() - i,
    {
        assert(list@.take(i + 1).drop_last() == list@.take(i as int));
        let ghost before = r@;
        let mut values = read_attribute(list[i]);
        let ghost more = values@;
        r.append(&mut values);
        assert(expr_trees(before + more) == expr_trees(before) + expr_trees(more));
        i += 1;
    }
    assert(list@.take(list@.len() as int) == list@);
    r
}

fn read_decl(declaration: &Declaration) -> (r: Decl)
    ensures
        r.tree() == wesl_declaration(*declaration),
{
    let parts = declaration_parts(declaration);
    Decl {
        attributes: read_attributes(&parts.attributes),
        name: parts.name,
        ty: read_optional_type(parts.ty),
        initializer: read_optional_expr(parts.initializer),
    }
}

fn read_const_assert(stmt: &ConstAssert) -> (r: Condition)
    ensures
        r.tree() == wesl_const_assert(*stmt),
{
    let (attributes, value) = const_assert_parts(stmt);
    Condition { attributes: read_attributes(&attributes), value: read_expr(value) }
}

fn read_break_if(stmt: &BreakIfStatement) -> (r: Condition)
    ensures
        r.tree() == wesl_break_if(*stmt),
{
    let (attributes, value) = break_if_parts(stmt);
    Condition { attributes: read_attributes(&attributes), value: read_expr(value) }
}

/// What stands below a statement is smaller than it.
proof fn lemma_below_stmt(tree: StmtTree)
    ensures
        match tree {
            StmtTree::Compound(body) => decreases_to!(tree => body),
            StmtTree::If(s) => decreases_to!(tree => s),
            StmtTree::Switch(s) => decreases_to!(tree => s),
            StmtTree::Loop(s) => decreases_to!(tree => s),
            StmtTree::For(s) => decreases_to!(tree => s),
            StmtTree::While(s) => decreases_to!(tree => s),
            _ => true,
        },
{
}

fn read_stmt(stmt: &Statement) -> (r: Stmt)
    ensures
        r.tree() == wesl_statement(*stmt),
    decreases wesl_statement(*stmt),
{
    proof {
        lemma_below_stmt(wesl_statement(*stmt));
    }
    match statement_parts(stmt) {
        Some(StatementParts::Void) => Stmt::Void,
        Some(StatementParts::Compound(body)) => Stmt::Compound(read_block(body)),
        Some(StatementParts::If(s)) => Stmt::If(read_if(s)),
        Some(StatementParts::Switch(s)) => Stmt::Switch(read_switch(s)),
        Some(StatementParts::Loop(s)) => Stmt::Loop(read_loop(s)),
        Some(StatementParts::For(s)) => Stmt::For(read_for(s)),
        Some(StatementParts::While(s)) => Stmt::While(read_while(s)),
        Some(StatementParts::ConstAssert(s)) => Stmt::ConstAssert(read_const_assert(s)),
        Some(StatementParts::Declaration(d)) => Stmt::Declaration(read_decl(d)),
        None => Stmt::Plain(read_plain(stmt)),
    }
}

fn read_plain(stmt: &Statement) -> (r: PlainStmt)
    requires
        wesl_statement(*stmt) is Plain,
    ensures
        StmtTree::Plain(r.tree()) == wesl_statement(*stmt),
{
    let attributes = read_attributes(&action_attributes(stmt));
    let action = match action_parts(stmt) {
        Some(ActionParts::Assignment(lhs, rhs)) => Action::Assignment(
            read_expr(lhs),
            read_expr(rhs),
        ),
        Some(ActionParts::Increment(e)) => Action::Increment(read_expr(e)),
        Some(ActionParts::Decrement(e)) => Action::Decrement(read_expr(e)),
        Some(ActionParts::Break) => Action::Break,
        Some(ActionParts::Continue) => Action::Continue,
        Some(ActionParts::Return(e)) => Action::Return(read_optional_expr(e)),
        Some(ActionParts::Discard) => Action::Discard,
        Some(ActionParts::Call(call)) => Action::Call(read_call(call)),
        None => Action::Discard,
    };
    PlainStmt { attributes, action }
}

/// Reads a branch from its parts.
fn read_branch(parts: BranchParts) -> (r: Branch)
    ensures
        r.tree() == parts.tree(),
    decreases parts.tree(),
{
    let ghost tree = parts.tree();
    assert(decreases_to!(tree => tree.body));
    Branch {
        attributes: read_attributes(&parts.attributes),
        condition: read_expr(parts.condition),
        body: read_block(parts.body),
    }
}

fn read_if(stmt: &IfStatement) -> (r: IfStmt)
    ensures
        r.tree() == wesl_if(*stmt),
    decreases wesl_if(*stmt),
{
    let parts = if_parts(stmt);
    let ghost tree = wesl_if(*stmt);
    assert(decreases_to!(tree => tree.first));
    assert(decreases_to!(tree => tree.else_ifs));
    assert(tree.otherwise matches Some(clause) ==> decreases_to!(tree => clause));
    IfStmt {
        first: read_branch(parts.first),
        else_ifs: read_else_ifs(parts.else_ifs),
        otherwise: match parts.otherwise {
            Some(clause) => Some(read_else(clause)),
            None => None,
        },
    }
}

fn read_while(stmt: &WhileStatement) -> (r: Branch)
    ensures
        r.tree() == wesl_while(*stmt),
    decreases wesl_while(*stmt),
{
    let parts = while_parts(stmt);
    let ghost tree = wesl_while(*stmt);
    assert(decreases_to!(tree => tree.body));
    Branch {
        attributes: read_attributes(&parts.attributes),
        condition: read_expr(parts.condition),
        body: read_block(parts.body),
    }
}

fn read_else_if(clause: &ElseIfClause) -> (r: Branch)
    ensures
        r.tree() == wesl_else_if(*clause),
    decreases wesl_else_if(*clause),
{
    let parts = else_if_parts(clause);
    let ghost tree = wesl_else_if(*clause);
    assert(decreases_to!(tree => tree.body));
    Branch {
        attributes: read_attributes(&parts.attributes),
        condition: read_expr(parts.condition),
        body: read_block(parts.body),
    }
}

fn read_else(clause: &ElseClause) -> (r: ElseBranch)
    ensures
        r.tree() == wesl_else(*clause),
    decreases wesl_else(*clause),
{
    let (attributes, body) = else_parts(clause);
    let ghost tree = wesl_else(*clause);
    assert(decreases_to!(tree => tree.body));
    ElseBranch { attributes: read_attributes(&attributes), body: read_block(body) }
}

fn read_switch(stmt: &SwitchStatement) -> (r: SwitchStmt)
    ensures
        r.tree() == wesl_switch(*stmt),
    decreases wesl_switch(*stmt),
{
    let parts = switch_parts(stmt);
    let ghost tree = wesl_switch(*stmt);
    assert(decreases_to!(tree => tree.cases));
    SwitchStmt {
        attributes: read_attributes(&parts.attributes),
        subject: read_expr(parts.subject),
        body_attributes: read_attributes(&parts.body_attributes),
        cases: read_clauses(parts.clauses),
    }
}

fn read_clause(clause: &SwitchClause) -> (r: SwitchCase)
    ensures
        r.tree() == wesl_clause(*clause),
    decreases wesl_clause(*clause),
{
    let (attributes, selectors, body) = clause_parts(clause);
    let ghost tree = wesl_clause(*clause);
    assert(decreases_to!(tree => tree.body));
    SwitchCase {
        attributes: read_attributes(&attributes),
        selectors: read_selectors(selectors),
        body: read_block(body),
    }
}

fn read_selector(selector: &CaseSelector) -> (r: Selector)
    ensures
        r.tree() == wesl_selector(*selector),
{
    match selector_parts(selector) {
        Some(e) => Selector::Value(read_expr(e)),
        None => Selector::Default,
    }
}

fn read_loop(stmt: &LoopStatement) -> (r: LoopStmt)
    ensures
        r.tree() == wesl_loop(*stmt),
    decreases wesl_loop(*stmt),
{
    let (attributes, body, continuing) = loop_parts(stmt);
    let ghost tree = wesl_loop(*stmt);
    assert(decreases_to!(tree => tree.body));
    assert(tree.continuing matches Some(c) ==> decreases_to!(tree => c));
    LoopStmt {
        attributes: read_attributes(&attributes),
        body: read_block(body),
        continuing: match continuing {
            Some(c) => Some(read_continuing(c)),
            None => None,
        },
    }
}

fn read_continuing(stmt: &ContinuingStatement) -> (r: Continuing)
    ensures
        r.tree() == wesl_continuing(*stmt),
    decreases wesl_continuing(*stmt),
{
    let (attributes, body, break_if) = continuing_parts(stmt);
    let ghost tree = wesl_continuing(*stmt);
    assert(decreases_to!(tree => tree.body));
    Continuing {
        attributes: read_attributes(&attributes),
        body: read_block(body),
        break_if: match break_if {
            Some(b) => Some(read_break_if(b)),
            None => None,
        },
    }
}

fn read_for(stmt: &ForStatement) -> (r: ForStmt)
    ensures
        r.tree() == wesl_for(*stmt),
    decreases wesl_for(*stmt),
{
    let parts = for_parts(stmt);
    let ghost tree = wesl_for(*stmt);
    assert(tree.initializer matches Some(s) ==> decreases_to!(tree => *s));
    assert(tree.update matches Some(s) ==> decreases_to!(tree => *s));
    assert(decreases_to!(tree => tree.body));
    ForStmt {
        attributes: read_attributes(&parts.attributes),
        initializer: match parts.initializer {
            Some(s) => Some(Box::new(read_stmt(s))),
            None => None,
        },
        condition: read_optional_expr(parts.condition),
        update: match parts.update {
            Some(s) => Some(Box::new(read_stmt(s))),
            None => None,
        },
        body: read_block(parts.body),
    }
}

fn read_block(body: &CompoundStatement) -> (r: Block)
    ensures
        r.tree() == wesl_body(*body),
    decreases wesl_body(*body),
{
    let (attributes, list) = body_parts(body);
    let ghost tree = wesl_body(*body);
    assert(decreases_to!(tree => tree.statements));
    Block { attributes: read_attributes(&attributes), statements: read_stmts(&list) }
}

fn read_stmts(list: &Vec<&Statement>) -> (r: Vec<Stmt>)
    ensures
        stmt_trees(r@) == wesl_statements(list@),
    decreases wesl_statements(list@),
{
    let ghost trees = wesl_statements(list@);
    let mut r: Vec<Stmt> = Vec::new();
    let mut i: usize = 0;
    while i < list.len()
        invariant
            i <= list.len(),
            trees == wesl_statements(list@),
            stmt_trees(r@) == trees.take(i as int),
        decreases list.len() - i,
    {
        assert(trees[i as int] == wesl_statement(*list@[i as int]));
        assert(decreases_to!(trees => trees[i as int]));
        let ghost before = stmt_trees(r@);
        let item = read_stmt(list[i]);
        let ghost shown = item.tree();
        r.push(item);
        assert(stmt_trees(r@) == before.push(shown));
        i += 1;
    }
    r
}

fn read_else_ifs(list: &Vec<ElseIfClause>) -> (r: Vec<Branch>)
    ensures
        branch_trees(r@) == wesl_else_ifs(list@),
    decreases wesl_else_ifs(list@),
{
    let ghost trees = wesl_else_ifs(list@);
    let mut r: Vec<Branch> = Vec::new();
    let mut i: usize = 0;
    while i < list.len()
        invariant
            i <= list.len(),
            trees == wesl_else_ifs(list@),
            branch_trees(r@) == trees.take(i as int),
        decreases list.len() - i,
    {
        assert(trees[i as int] == wesl_else_if(list@[i as int]));
        assert(decreases_to!(trees => trees[i as int]));
        let ghost before = branch_trees(r@);
        let item = read_else_if(&list[i]);
        let ghost shown = item.tree();
        r.push(item);
        assert(branch_trees(r@) == before.push(shown));
        i += 1;
    }
    r
}

fn read_clauses(list: &Vec<SwitchClause>) -> (r: Vec<SwitchCase>)
    ensures
        case_trees(r@) == wesl_clauses(list@),
    decreases wesl_clauses(list@),
{
    let ghost trees = wesl_clauses(list@);
    let mut r: Vec<SwitchCase> = Vec::new();
    let mut i: usize = 0;
    while i < list.len()
        invariant
            i <= list.len(),
            trees == wesl_clauses(list@),
            case_trees(r@) == trees.take(i as int),
        decreases list.len() - i,
    {
        assert(trees[i as int] == wesl_clause(list@[i as int]));
        assert(decreases_to!(trees => trees[i as int]));
        let ghost before = case_trees(r@);
        let item = read_clause(&list[i]);
        let ghost shown = item.tree();
        r.push(item);
        assert(case_trees(r@) == before.push(shown));
        i += 1;
    }
    r
}

fn read_selectors(list: &Vec<CaseSelector>) -> (r: Vec<Selector>)
    ensures
        selector_trees(r@) == wesl_selectors(list@),
{
    let ghost trees = wesl_selectors(list@);
    let mut r: Vec<Selector> = Vec::new();
    let mut i: usize = 0;
    while i < list.len()
        invariant
            i <= list.len(),
            trees == wesl_selectors(list@),
            selector_trees(r@) == trees.take(i as int),
        decreases list.len() - i,
    {
        assert(trees[i as int] == wesl_selector(list@[i as int]));
        let ghost before = selector_trees(r@);
        let item = read_selector(&list[i]);
        let ghost shown = item.tree();
        r.push(item);
        assert(selector_trees(r@) == before.push(shown));
        i += 1;
    }
    r
}

/// The node of the `wesl` crate for a type alias.
#[verifier::external_type_specification]
#[verifier::external_body]
pub struct ExTypeAlias(wesl::syntax::TypeAlias);

/// The node of the `wesl` crate for a struct.
#[verifier::external_type_specification]
#[verifier::external_body]
pub struct ExStruct(wesl::syntax::Struct);

/// The node of the `wesl` crate for a member of a struct.
#[verifier::external_type_specification]
#[verifier::external_body]
pub struct ExStructMember(wesl::syntax::StructMember);

/// The node of the `wesl` crate for a function.
#[verifier::external_type_specification]
#[verifier::external_body]
pub struct ExFunction(wesl::syntax::Function);

/// The node of the `wesl` crate for a parameter of a function.
#[verifier::external_type_specification]
#[verifier::external_body]
pub struct ExFormalParameter(wesl::syntax::FormalParameter);

/// The node of the `wesl` crate for a declaration at the top level.
#[verifier::external_type_specification]
#[verifier::external_body]
pub struct ExGlobalDeclaration(wesl::syntax::GlobalDeclaration);

/// The node of the `wesl` crate for what an import names.
#[verifier::external_type_specification]
#[verifier::external_body]
pub struct ExImportContent(wesl::syntax::ImportContent);

/// The node of the `wesl` crate for one import of a list.
#[verifier::external_type_specification]
#[verifier::external_body]
pub struct ExImport(wesl::syntax::Import);

/// The node of the `wesl` crate for an import statement.
#[verifier::external_type_specification]
#[verifier::external_body]
pub struct ExImportStatement(wesl::syntax::ImportStatement);

/// The node of the `wesl` crate for a whole source.
#[verifier::external_type_specification]
#[verifier::external_body]
pub struct ExTranslationUnit(wesl::syntax::TranslationUnit);

/// What a type alias says.
pub uninterp spec fn wesl_alias(alias: wesl::syntax::TypeAlias) -> TypedTree;

/// What a struct says.
pub uninterp spec fn wesl_struct(decl: wesl::syntax::Struct) -> StructTree;

/// What a member of a struct says.
pub uninterp spec fn wesl_member(member: wesl::syntax::StructMember) -> TypedTree;

/// What a function says.
pub uninterp spec fn wesl_function(function: wesl::syntax::Function) -> FunctionTree;

/// What a parameter of a function says.
pub uninterp spec fn wesl_parameter(parameter: wesl::syntax::FormalParameter) -> TypedTree;

/// What a declaration at the top level says.
pub uninterp spec fn wesl_global(declaration: wesl::syntax::GlobalDeclaration) -> GlobalTree;

/// What an import names.
pub uninterp spec fn wesl_imported(content: wesl::syntax::ImportContent) -> ImportedTree;

/// What one import of a list says.
pub uninterp spec fn wesl_entry(import: wesl::syntax::Import) -> EntryTree;

/// What an import statement says.
pub uninterp spec fn wesl_import(stmt: wesl::syntax::ImportStatement) -> ImportTree;

/// What a translation unit says.
pub uninterp spec fn wesl_unit(unit: wesl::syntax::TranslationUnit) -> UnitTree;

/// What the `wesl` crate reads in a source; nothing where it does not parse.
pub uninterp spec fn wesl_syntax(source: Seq<char>) -> Option<UnitTree>;

/// What each declaration of a list says.
pub open spec fn wesl_globals(list: Seq<&GlobalDeclaration>) -> Seq<GlobalTree> {
    list.map_values(|d: &GlobalDeclaration| wesl_global(*d))
}

/// What each import of a list says.
pub open spec fn wesl_entries(list: Seq<Import>) -> Seq<EntryTree> {
    list.map_values(|i: Import| wesl_entry(i))
}

/// What each import statement of a list says.
pub open spec fn wesl_imports(list: Seq<ImportStatement>) -> Seq<ImportTree> {
    list.map_values(|s: ImportStatement| wesl_import(s))
}

/// What each member of a list says.
pub open spec fn wesl_members(list: Seq<&StructMember>) -> Seq<TypedTree> {
    list.map_values(|m: &StructMember| wesl_member(*m))
}

/// What each parameter of a list says.
pub open spec fn wesl_parameters(list: Seq<FormalParameter>) -> Seq<TypedTree> {
    list.map_values(|p: FormalParameter| wesl_parameter(p))
}

/// The attributes, the name and the type of an alias, a parameter or a member.
pub struct TypedParts<'a> {
    pub attributes: Vec<&'a Attribute>,
    pub name: String,
    pub ty: &'a TypeExpression,
}

impl<'a> TypedParts<'a> {
    pub open spec fn tree(self) -> TypedTree {
        TypedTree {
            attributes: wesl_attributes(self.attributes@),
            name: self.name@,
            ty: wesl_type(*self.ty),
        }
    }
}

/// The `attributes` and the `ty` of a `TypeAlias`, and its identifier written out.
#[verifier::external_body]
fn alias_parts<'a>(alias: &'a TypeAlias) -> (r: TypedParts<'a>)
    ensures
        r.tree() == wesl_alias(*alias),
{
    TypedParts {
        attributes: alias.attributes.iter().map(|a| a.node()).collect(),
        name: alias.ident.to_string(),
        ty: &alias.ty,
    }
}

/// The `attributes` and the `ty` of a `StructMember`, and its identifier written out.
#[verifier::external_body]
fn member_parts<'a>(member: &'a StructMember) -> (r: TypedParts<'a>)
    ensures
        r.tree() == wesl_member(*member),
{
    TypedParts {
        attributes: member.attributes.iter().map(|a| a.node()).collect(),
        name: member.ident.to_string(),
        ty: &member.ty,
    }
}

/// The `attributes` and the `ty` of a `FormalParameter`, and its identifier written out.
#[verifier::external_body]
fn parameter_parts<'a>(parameter: &'a FormalParameter) -> (r: TypedParts<'a>)
    ensures
        r.tree() == wesl_parameter(*parameter),
{
    TypedParts {
        attributes: parameter.attributes.iter().map(|a| a.node()).collect(),
        name: parameter.ident.to_string(),
        ty: &parameter.ty,
    }
}

/// The `attributes` and the `members` of a `Struct`.
#[verifier::external_body]
fn struct_parts<'a>(decl: &'a Struct) -> (r: (Vec<&'a Attribute>, Vec<&'a StructMember>))
    ensures
        wesl_struct(*decl) == (StructTree {
            attributes: wesl_attributes(r.0@),
            members: wesl_members(r.1@),
        }),
{
    let attributes = decl.attributes.iter().map(|a| a.node()).collect();
    (attributes, decl.members.iter().map(|m| m.node()).collect())
}

/// The parts of a function.
pub struct FunctionParts<'a> {
    pub attributes: Vec<&'a Attribute>,
    pub parameters: &'a Vec<FormalParameter>,
    pub return_attributes: Vec<&'a Attribute>,
    pub return_type: Option<&'a TypeExpression>,
    pub body: &'a CompoundStatement,
}

impl<'a> FunctionParts<'a> {
    pub open spec fn tree(self) -> FunctionTree {
        FunctionTree {
            attributes: wesl_attributes(self.attributes@),
            parameters: wesl_parameters(self.parameters@),
            return_attributes: wesl_attributes(self.return_attributes@),
            return_type: wesl_optional_type(self.return_type),
            body: wesl_body(*self.body),
        }
    }
}

/// The fields of a `Function` but its identifier.
#[verifier::external_body]
fn function_parts<'a>(function: &'a Function) -> (r: FunctionParts<'a>)
    ensures
        r.tree() == wesl_function(*function),
{
    FunctionParts {
        attributes: function.attributes.iter().map(|a| a.node()).collect(),
        parameters: &function.parameters,
        return_attributes: function.return_attributes.iter().map(|a| a.node()).collect(),
        return_type: function.return_type.as_ref(),
        body: &function.body,
    }
}

/// A declaration at the top level, and the node right below it.
pub enum GlobalParts<'a> {
    Void,
    Declaration(&'a Declaration),
    TypeAlias(&'a TypeAlias),
    Struct(&'a Struct),
    Function(&'a Function),
    ConstAssert(&'a ConstAssert),
}

impl<'a> GlobalParts<'a> {
    pub open spec fn tree(self) -> GlobalTree {
        match self {
            GlobalParts::Void => GlobalTree::Void,
            GlobalParts::Declaration(d) => GlobalTree::Declaration(wesl_declaration(*d)),
            GlobalParts::TypeAlias(alias) => GlobalTree::TypeAlias(wesl_alias(*alias)),
            GlobalParts::Struct(decl) => GlobalTree::Struct(wesl_struct(*decl)),
            GlobalParts::Function(function) => GlobalTree::Function(wesl_function(*function)),
            GlobalParts::ConstAssert(s) => GlobalTree::ConstAssert(wesl_const_assert(*s)),
        }
    }
}

/// Tells the variants of `GlobalDeclaration` apart and borrows what each holds.
#[verifier::external_body]
fn global_parts<'a>(declaration: &'a GlobalDeclaration) -> (r: GlobalParts<'a>)
    ensures
        r.tree() == wesl_global(*declaration),
{
    match declaration {
        GlobalDeclaration::Void => GlobalParts::Void,
        GlobalDeclaration::Declaration(x) => GlobalParts::Declaration(x),
        GlobalDeclaration::TypeAlias(x) => GlobalParts::TypeAlias(x),
        GlobalDeclaration::Struct(x) => GlobalParts::Struct(x),
        GlobalDeclaration::Function(x) => GlobalParts::Function(x),
        GlobalDeclaration::ConstAssert(x) => GlobalParts::ConstAssert(x),
    }
}

/// What an import names, and the imports right below it.
pub enum ContentParts<'a> {
    Item(String, Option<String>),
    List(&'a Vec<Import>),
}

impl<'a> ContentParts<'a> {
    pub open spec fn tree(self) -> ImportedTree {
        match self {
            ContentParts::Item(name, alias) => ImportedTree::Item {
                name: name@,
                alias: optional_text(alias),
            },
            ContentParts::List(list) => ImportedTree::List(wesl_entries(list@)),
        }
    }
}

/// Tells the variants of `ImportContent` apart and writes out the identifiers of an item.
#[verifier::external_body]
fn content_parts<'a>(content: &'a ImportContent) -> (r: ContentParts<'a>)
    ensures
        r.tree() == wesl_imported(*content),
{
    match content {
        ImportContent::Item(item) => {
            let alias = item.rename.as_ref().map(ToString::to_string);
            ContentParts::Item(item.ident.to_string(), alias)
        },
        ImportContent::Collection(list) => ContentParts::List(list),
    }
}

/// The `path` and the `content` of an `Import`.
#[verifier::external_body]
fn entry_parts<'a>(import: &'a Import) -> (r: (&'a Vec<String>, &'a ImportContent))
    ensures
        wesl_entry(*import) == (EntryTree { names: texts(r.0@), content: wesl_imported(*r.1) }),
{
    (&import.path, &import.content)
}

/// The `path` and the `content` of an `ImportStatement`.
#[verifier::external_body]
fn import_parts<'a>(
    stmt: &'a ImportStatement,
) -> (r: (Option<&'a wesl::syntax::ModulePath>, &'a ImportContent))
    ensures
        wesl_import(*stmt) == (ImportTree {
            path: match r.0 {
                Some(path) => Some(wesl_path(*path)),
                None => None,
            },
            content: wesl_imported(*r.1),
        }),
{
    (stmt.path.as_ref(), &stmt.content)
}

/// The `imports` and the `global_declarations` of a `TranslationUnit`.
#[verifier::external_body]
fn unit_parts<'a>(
    unit: &'a TranslationUnit,
) -> (r: (&'a Vec<ImportStatement>, Vec<&'a GlobalDeclaration>))
    ensures
        wesl_unit(*unit) == (UnitTree {
            imports: wesl_imports(r.0@),
            declarations: wesl_globals(r.1@),
        }),
{
    (&unit.imports, unit.global_declarations.iter().map(|d| d.node()).collect())
}

/// `TranslationUnit::from_str` of the `wesl` crate, by way of `str::parse`: the same source always
/// parses to the same unit, or never parses. Where overflow is checked, a text that is not lexable
/// makes it panic.
#[verifier::external_body]
fn parse_unit(source: &str) -> (r: Option<TranslationUnit>)
    requires
        is_lexable(source@),
    ensures
        wesl_syntax(source@) == (match r {
            Some(unit) => Some(wesl_unit(unit)),
            None => None,
        }),
{
    source.parse::<TranslationUnit>().ok()
}

fn read_typed(parts: TypedParts) -> (r: TypedName)
    ensures
        r.tree() == parts.tree(),
{
    TypedName {
        attributes: read_attributes(&parts.attributes),
        name: parts.name,
        ty: read_type(parts.ty),
    }
}

fn read_members(list: &Vec<&StructMember>) -> (r: Vec<TypedName>)
    ensures
        typed_trees(r@) == wesl_members(list@),
{
    let ghost trees = wesl_members(list@);
    let mut r: Vec<TypedName> = Vec::new();
    let mut i: usize = 0;
    while i < list.len()
        invariant
            i <= list.len(),
            trees == wesl_members(list@),
            typed_trees(r@) == trees.take(i as int),
        decreases list.len() - i,
    {
        assert(trees[i as int] == wesl_member(*list@[i as int]));
        let ghost before = typed_trees(r@);
        let item = read_typed(member_parts(list[i]));
        let ghost shown = item.tree();
        r.push(item);
        assert(typed_trees(r@) == before.push(shown));
        i += 1;
    }
    r
}

fn read_parameters(list: &Vec<FormalParameter>) -> (r: Vec<TypedName>)
    ensures
        typed_trees(r@) == wesl_parameters(list@),
{
    let ghost trees = wesl_parameters(list@);
    let mut r: Vec<TypedName> = Vec::new();
    let mut i: usize = 0;
    while i < list.len()
        invariant
            i <= list.len(),
            trees == wesl_parameters(list@),
            typed_trees(r@) == trees.take(i as int),
        decreases list.len() - i,
    {
        assert(trees[i as int] == wesl_parameter(list@[i as int]));
        let ghost before = typed_trees(r@);
        let item = read_typed(parameter_parts(&list[i]));
        let ghost shown = item.tree();
        r.push(item);
        assert(typed_trees(r@) == before.push(shown));
        i += 1;
    }
    r
}

fn read_struct(decl: &Struct) -> (r: StructDecl)
    ensures
        r.tree() == wesl_struct(*decl),
{
    let (attributes, members) = struct_parts(decl);
    StructDecl { attributes: read_attributes(&attributes), members: read_members(&members) }
}

fn read_function(function: &Function) -> (r: FunctionDecl)
    ensures
        r.tree() == wesl_function(*function),
{
    let parts = function_parts(function);
    FunctionDecl {
        attributes: read_attributes(&parts.attributes),
        parameters: read_parameters(parts.parameters),
        return_attributes: read_attributes(&parts.return_attributes),
        return_type: read_optional_type(parts.return_type),
        body: read_block(parts.body),
    }
}

fn read_global(declaration: &GlobalDeclaration) -> (r: GlobalDecl)
    ensures
        r.tree() == wesl_global(*declaration),
{
    match global_parts(declaration) {
        GlobalParts::Void => GlobalDecl::Void,
        GlobalParts::Declaration(d) => GlobalDecl::Declaration(read_decl(d)),
        GlobalParts::TypeAlias(alias) => GlobalDecl::TypeAlias(read_typed(alias_parts(alias))),
        GlobalParts::Struct(decl) => GlobalDecl::Struct(read_struct(decl)),
        GlobalParts::Function(function) => GlobalDecl::Function(read_function(function)),
        GlobalParts::ConstAssert(s) => GlobalDecl::ConstAssert(read_const_assert(s)),
    }
}

fn read_imported(content: &ImportContent) -> (r: Imported)
    ensures
        r.tree() == wesl_imported(*content),
    decreases wesl_imported(*content),
{
    let ghost tree = wesl_imported(*content);
    match content_parts(content) {
        ContentParts::Item(name, alias) => Imported::Item { name, alias },
        ContentParts::List(list) => {
            assert(decreases_to!(tree => tree->List_0));
            Imported::List(read_entries(list))
        },
    }
}

fn read_entry(import: &Import) -> (r: ImportEntry)
    ensures
        r.tree() == wesl_entry(*import),
    decreases wesl_entry(*import),
{
    let (names, content) = entry_parts(import);
    let ghost tree = wesl_entry(*import);
    assert(decreases_to!(tree => tree.content));
    ImportEntry { names: copy_texts(names), content: read_imported(content) }
}

fn read_import(stmt: &ImportStatement) -> (r: ImportStmt)
    ensures
        r.tree() == wesl_import(*stmt),
{
    let (path, content) = import_parts(stmt);
    ImportStmt {
        path: match path {
            Some(p) => Some(of_wesl(p)),
            None => None,
        },
        content: read_imported(content),
    }
}

fn read_entries(list: &Vec<Import>) -> (r: Vec<ImportEntry>)
    ensures
        entry_trees(r@) == wesl_entries(list@),
    decreases wesl_entries(list@),
{
    let ghost trees = wesl_entries(list@);
    let mut r: Vec<ImportEntry> = Vec::new();
    let mut i: usize = 0;
    while i < list.len()
        invariant
            i <= list.len(),
            trees == wesl_entries(list@),
            entry_trees(r@) == trees.take(i as int),
        decreases list.len() - i,
    {
        assert(trees[i as int] == wesl_entry(list@[i as int]));
        assert(decreases_to!(trees => trees[i as int]));
        let ghost before = entry_trees(r@);
        let item = read_entry(&list[i]);
        let ghost shown = item.tree();
        r.push(item);
        assert(entry_trees(r@) == before.push(shown));
        i += 1;
    }
    r
}

fn read_imports(list: &Vec<ImportStatement>) -> (r: Vec<ImportStmt>)
    ensures
        import_trees(r@) == wesl_imports(list@),
{
    let ghost trees = wesl_imports(list@);
    let mut r: Vec<ImportStmt> = Vec::new();
    let mut i: usize = 0;
    while i < list.len()
        invariant
            i <= list.len(),
            trees == wesl_imports(list@),
            import_trees(r@) == trees.take(i as int),
        decreases list.len() - i,
    {
        assert(trees[i as int] == wesl_import(list@[i as int]));
        let ghost before = import_trees(r@);
        let item = read_import(&list[i]);
        let ghost shown = item.tree();
        r.push(item);
        assert(import_trees(r@) == before.push(shown));
        i += 1;
    }
    r
}

fn read_globals(list: &Vec<&GlobalDeclaration>) -> (r: Vec<GlobalDecl>)
    ensures
        global_trees(r@) == wesl_globals(list@),
{
    let ghost trees = wesl_globals(list@);
    let mut r: Vec<GlobalDecl> = Vec::new();
    let mut i: usize = 0;
    while i < list.len()
        invariant
            i <= list.len(),
            trees == wesl_globals(list@),
            global_trees(r@) == trees.take(i as int),
        decreases list.len() - i,
    {
        assert(trees[i as int] == wesl_global(*list@[i as int]));
        let ghost before = global_trees(r@);
        let item = read_global(list[i]);
        let ghost shown = item.tree();
        r.push(item);
        assert(global_trees(r@) == before.push(shown));
        i += 1;
    }
    r
}

/// Reads the imports and the declarations of a source; nothing where it does not parse.
pub fn read_source(source: &str) -> (r: Option<Unit>)
    requires
        is_lexable(source@),
    ensures
        wesl_syntax(source@) == (match r {
            Some(unit) => Some(unit.tree()),
            None => None,
        }),
{
    match parse_unit(source) {
        Some(unit) => {
            let (imports, declarations) = unit_parts(&unit);
            Some(
                Unit { imports: read_imports(imports), declarations: read_globals(&declarations) },
            )
        },
        None => None,
    }
}

}
