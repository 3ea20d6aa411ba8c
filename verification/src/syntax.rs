//! The part of a shader's syntax that says which modules it uses.
//!
//! The `attributes` of a node are the values that its attributes are given, in order, such as the
//! `N` of `@workgroup_size(N)`.

use vstd::prelude::*;

use crate::path::{PathView, WeslPath};
use crate::text::texts;

verus! {

/// An expression.
#[derive(Debug)]
pub enum Expr {
    Literal,
    Parenthesized(Box<Expr>),
    NamedComponent(Box<Expr>),
    Indexing(Box<Expr>, Box<Expr>),
    Unary(Box<Expr>),
    Binary(Box<Expr>, Box<Expr>),
    Call(CallExpr),
    Type(TypeExpr),
}

/// What is called, and the arguments.
#[derive(Debug)]
pub struct CallExpr {
    pub ty: TypeExpr,
    pub arguments: Vec<Expr>,
}

/// The name of a type, a function or a value, with the path of its module where one is written
/// and with its template arguments where there are any.
#[derive(Debug)]
pub struct TypeExpr {
    pub path: Option<WeslPath>,
    pub name: String,
    pub template_args: Option<Vec<Expr>>,
}

/// What an [`Expr`] says.
#[verifier::ext_equal]
pub enum ExprTree {
    Literal,
    Parenthesized(Box<ExprTree>),
    NamedComponent(Box<ExprTree>),
    Indexing(Box<ExprTree>, Box<ExprTree>),
    Unary(Box<ExprTree>),
    Binary(Box<ExprTree>, Box<ExprTree>),
    Call(CallTree),
    Type(TypeTree),
}

/// What a [`CallExpr`] says.
#[verifier::ext_equal]
pub struct CallTree {
    pub ty: TypeTree,
    pub arguments: Seq<ExprTree>,
}

/// What a [`TypeExpr`] says.
#[verifier::ext_equal]
pub struct TypeTree {
    pub path: Option<PathView>,
    pub name: Seq<char>,
    pub template_args: Option<Seq<ExprTree>>,
}

impl Expr {
    pub open spec fn tree(self) -> ExprTree
        decreases self,
    {
        match self {
            Expr::Literal => ExprTree::Literal,
            Expr::Parenthesized(e) => ExprTree::Parenthesized(Box::new(e.tree())),
            Expr::NamedComponent(e) => ExprTree::NamedComponent(Box::new(e.tree())),
            Expr::Indexing(a, b) => ExprTree::Indexing(Box::new(a.tree()), Box::new(b.tree())),
            Expr::Unary(e) => ExprTree::Unary(Box::new(e.tree())),
            Expr::Binary(a, b) => ExprTree::Binary(Box::new(a.tree()), Box::new(b.tree())),
            Expr::Call(call) => ExprTree::Call(call.tree()),
            Expr::Type(ty) => ExprTree::Type(ty.tree()),
        }
    }
}

impl CallExpr {
    pub open spec fn tree(self) -> CallTree
        decreases self,
    {
        CallTree { ty: self.ty.tree(), arguments: expr_trees(self.arguments@) }
    }
}

impl TypeExpr {
    pub open spec fn tree(self) -> TypeTree
        decreases self,
    {
        TypeTree {
            path: optional_path(self.path),
            name: self.name@,
            template_args: match self.template_args {
                Some(args) => Some(expr_trees(args@)),
                None => None,
            },
        }
    }
}

/// What each expression of a list says.
pub open spec fn expr_trees(list: Seq<Expr>) -> Seq<ExprTree>
    decreases list,
{
    Seq::new(list.len(), |i: int| if 0 <= i < list.len() { list[i].tree() } else { arbitrary() })
}

/// What an expression says, where there is one.
pub open spec fn optional_expr(expr: Option<Expr>) -> Option<ExprTree> {
    match expr {
        Some(e) => Some(e.tree()),
        None => None,
    }
}

/// What a type expression says, where there is one.
pub open spec fn optional_type(ty: Option<TypeExpr>) -> Option<TypeTree> {
    match ty {
        Some(t) => Some(t.tree()),
        None => None,
    }
}

/// A declaration of a value: its name, and its type and its initial value where they are written.
#[derive(Debug)]
pub struct Decl {
    pub attributes: Vec<Expr>,
    pub name: String,
    pub ty: Option<TypeExpr>,
    pub initializer: Option<Expr>,
}

/// A name and the type that it stands for or has: an alias, a parameter or a member of a struct.
#[derive(Debug)]
pub struct TypedName {
    pub attributes: Vec<Expr>,
    pub name: String,
    pub ty: TypeExpr,
}

/// A condition that guards no statements: that of an assertion or of a `break if`.
#[derive(Debug)]
pub struct Condition {
    pub attributes: Vec<Expr>,
    pub value: Expr,
}

/// What a [`Decl`] says.
#[verifier::ext_equal]
pub struct DeclTree {
    pub attributes: Seq<ExprTree>,
    pub name: Seq<char>,
    pub ty: Option<TypeTree>,
    pub initializer: Option<ExprTree>,
}

/// What a [`TypedName`] says.
#[verifier::ext_equal]
pub struct TypedTree {
    pub attributes: Seq<ExprTree>,
    pub name: Seq<char>,
    pub ty: TypeTree,
}

/// What a [`Condition`] says.
#[verifier::ext_equal]
pub struct ConditionTree {
    pub attributes: Seq<ExprTree>,
    pub value: ExprTree,
}

impl Decl {
    pub open spec fn tree(self) -> DeclTree {
        DeclTree {
            attributes: expr_trees(self.attributes@),
            name: self.name@,
            ty: optional_type(self.ty),
            initializer: optional_expr(self.initializer),
        }
    }
}

impl TypedName {
    pub open spec fn tree(self) -> TypedTree {
        TypedTree {
            attributes: expr_trees(self.attributes@),
            name: self.name@,
            ty: self.ty.tree(),
        }
    }
}

impl Condition {
    pub open spec fn tree(self) -> ConditionTree {
        ConditionTree { attributes: expr_trees(self.attributes@), value: self.value.tree() }
    }
}

/// What each typed name of a list says.
pub open spec fn typed_trees(list: Seq<TypedName>) -> Seq<TypedTree> {
    list.map_values(|t: TypedName| t.tree())
}

/// What a condition says, where there is one.
pub open spec fn optional_condition(condition: Option<Condition>) -> Option<ConditionTree> {
    match condition {
        Some(c) => Some(c.tree()),
        None => None,
    }
}

/// What a statement does that holds no other statement and declares nothing.
#[derive(Debug)]
pub enum Action {
    Assignment(Expr, Expr),
    Increment(Expr),
    Decrement(Expr),
    Break,
    Continue,
    Return(Option<Expr>),
    Discard,
    Call(CallExpr),
}

/// A statement that holds no other statement and declares nothing.
#[derive(Debug)]
pub struct PlainStmt {
    pub attributes: Vec<Expr>,
    pub action: Action,
}

/// What an [`Action`] says.
#[verifier::ext_equal]
pub enum ActionTree {
    Assignment(ExprTree, ExprTree),
    Increment(ExprTree),
    Decrement(ExprTree),
    Break,
    Continue,
    Return(Option<ExprTree>),
    Discard,
    Call(CallTree),
}

/// What a [`PlainStmt`] says.
#[verifier::ext_equal]
pub struct PlainTree {
    pub attributes: Seq<ExprTree>,
    pub action: ActionTree,
}

impl Action {
    pub open spec fn tree(self) -> ActionTree {
        match self {
            Action::Assignment(lhs, rhs) => ActionTree::Assignment(lhs.tree(), rhs.tree()),
            Action::Increment(e) => ActionTree::Increment(e.tree()),
            Action::Decrement(e) => ActionTree::Decrement(e.tree()),
            Action::Break => ActionTree::Break,
            Action::Continue => ActionTree::Continue,
            Action::Return(e) => ActionTree::Return(optional_expr(e)),
            Action::Discard => ActionTree::Discard,
            Action::Call(call) => ActionTree::Call(call.tree()),
        }
    }
}

impl PlainStmt {
    pub open spec fn tree(self) -> PlainTree {
        PlainTree { attributes: expr_trees(self.attributes@), action: self.action.tree() }
    }
}

/// A statement.
#[derive(Debug)]
pub enum Stmt {
    Void,
    Compound(Block),
    If(IfStmt),
    Switch(SwitchStmt),
    Loop(LoopStmt),
    For(ForStmt),
    While(Branch),
    Plain(PlainStmt),
    ConstAssert(Condition),
    Declaration(Decl),
}

/// The statements between two braces.
#[derive(Debug)]
pub struct Block {
    pub attributes: Vec<Expr>,
    pub statements: Vec<Stmt>,
}

/// A condition and the statements that it guards.
#[derive(Debug)]
pub struct Branch {
    pub attributes: Vec<Expr>,
    pub condition: Expr,
    pub body: Block,
}

/// An `if` statement. The attributes of its first branch are those of the whole statement.
#[derive(Debug)]
pub struct IfStmt {
    pub first: Branch,
    pub else_ifs: Vec<Branch>,
    pub otherwise: Option<ElseBranch>,
}

#[derive(Debug)]
pub struct ElseBranch {
    pub attributes: Vec<Expr>,
    pub body: Block,
}

#[derive(Debug)]
pub struct SwitchStmt {
    pub attributes: Vec<Expr>,
    pub subject: Expr,
    pub body_attributes: Vec<Expr>,
    pub cases: Vec<SwitchCase>,
}

#[derive(Debug)]
pub struct SwitchCase {
    pub attributes: Vec<Expr>,
    pub selectors: Vec<Selector>,
    pub body: Block,
}

#[derive(Debug)]
pub enum Selector {
    Default,
    Value(Expr),
}

#[derive(Debug)]
pub struct LoopStmt {
    pub attributes: Vec<Expr>,
    pub body: Block,
    pub continuing: Option<Continuing>,
}

#[derive(Debug)]
pub struct Continuing {
    pub attributes: Vec<Expr>,
    pub body: Block,
    pub break_if: Option<Condition>,
}

#[derive(Debug)]
pub struct ForStmt {
    pub attributes: Vec<Expr>,
    pub initializer: Option<Box<Stmt>>,
    pub condition: Option<Expr>,
    pub update: Option<Box<Stmt>>,
    pub body: Block,
}

/// What a [`Stmt`] says.
#[verifier::ext_equal]
pub enum StmtTree {
    Void,
    Compound(BlockTree),
    If(IfTree),
    Switch(SwitchTree),
    Loop(LoopTree),
    For(ForTree),
    While(BranchTree),
    Plain(PlainTree),
    ConstAssert(ConditionTree),
    Declaration(DeclTree),
}

/// What a [`Block`] says.
#[verifier::ext_equal]
pub struct BlockTree {
    pub attributes: Seq<ExprTree>,
    pub statements: Seq<StmtTree>,
}

/// What a [`Branch`] says.
#[verifier::ext_equal]
pub struct BranchTree {
    pub attributes: Seq<ExprTree>,
    pub condition: ExprTree,
    pub body: BlockTree,
}

/// What an [`IfStmt`] says.
#[verifier::ext_equal]
pub struct IfTree {
    pub first: BranchTree,
    pub else_ifs: Seq<BranchTree>,
    pub otherwise: Option<ElseTree>,
}

/// What an [`ElseBranch`] says.
#[verifier::ext_equal]
pub struct ElseTree {
    pub attributes: Seq<ExprTree>,
    pub body: BlockTree,
}

/// What a [`SwitchStmt`] says.
#[verifier::ext_equal]
pub struct SwitchTree {
    pub attributes: Seq<ExprTree>,
    pub subject: ExprTree,
    pub body_attributes: Seq<ExprTree>,
    pub cases: Seq<CaseTree>,
}

/// What a [`SwitchCase`] says.
#[verifier::ext_equal]
pub struct CaseTree {
    pub attributes: Seq<ExprTree>,
    pub selectors: Seq<SelectorTree>,
    pub body: BlockTree,
}

/// What a [`Selector`] says.
#[verifier::ext_equal]
pub enum SelectorTree {
    Default,
    Value(ExprTree),
}

/// What a [`LoopStmt`] says.
#[verifier::ext_equal]
pub struct LoopTree {
    pub attributes: Seq<ExprTree>,
    pub body: BlockTree,
    pub continuing: Option<ContinuingTree>,
}

/// What a [`Continuing`] says.
#[verifier::ext_equal]
pub struct ContinuingTree {
    pub attributes: Seq<ExprTree>,
    pub body: BlockTree,
    pub break_if: Option<ConditionTree>,
}

/// What a [`ForStmt`] says.
#[verifier::ext_equal]
pub struct ForTree {
    pub attributes: Seq<ExprTree>,
    pub initializer: Option<Box<StmtTree>>,
    pub condition: Option<ExprTree>,
    pub update: Option<Box<StmtTree>>,
    pub body: BlockTree,
}

impl Stmt {
    pub open spec fn tree(self) -> StmtTree
        decreases self,
    {
        match self {
            Stmt::Void => StmtTree::Void,
            Stmt::Compound(body) => StmtTree::Compound(body.tree()),
            Stmt::If(s) => StmtTree::If(s.tree()),
            Stmt::Switch(s) => StmtTree::Switch(s.tree()),
            Stmt::Loop(s) => StmtTree::Loop(s.tree()),
            Stmt::For(s) => StmtTree::For(s.tree()),
            Stmt::While(s) => StmtTree::While(s.tree()),
            Stmt::Plain(s) => StmtTree::Plain(s.tree()),
            Stmt::ConstAssert(condition) => StmtTree::ConstAssert(condition.tree()),
            Stmt::Declaration(decl) => StmtTree::Declaration(decl.tree()),
        }
    }
}

impl Block {
    pub open spec fn tree(self) -> BlockTree
        decreases self,
    {
        BlockTree {
            attributes: expr_trees(self.attributes@),
            statements: stmt_trees(self.statements@),
        }
    }
}

impl Branch {
    pub open spec fn tree(self) -> BranchTree
        decreases self,
    {
        BranchTree {
            attributes: expr_trees(self.attributes@),
            condition: self.condition.tree(),
            body: self.body.tree(),
        }
    }
}

impl IfStmt {
    pub open spec fn tree(self) -> IfTree
        decreases self,
    {
        IfTree {
            first: self.first.tree(),
            else_ifs: branch_trees(self.else_ifs@),
            otherwise: match self.otherwise {
                Some(branch) => Some(branch.tree()),
                None => None,
            },
        }
    }
}

impl ElseBranch {
    pub open spec fn tree(self) -> ElseTree
        decreases self,
    {
        ElseTree { attributes: expr_trees(self.attributes@), body: self.body.tree() }
    }
}

impl SwitchStmt {
    pub open spec fn tree(self) -> SwitchTree
        decreases self,
    {
        SwitchTree {
            attributes: expr_trees(self.attributes@),
            subject: self.subject.tree(),
            body_attributes: expr_trees(self.body_attributes@),
            cases: case_trees(self.cases@),
        }
    }
}

impl SwitchCase {
    pub open spec fn tree(self) -> CaseTree
        decreases self,
    {
        CaseTree {
            attributes: expr_trees(self.attributes@),
            selectors: selector_trees(self.selectors@),
            body: self.body.tree(),
        }
    }
}

impl Selector {
    pub open spec fn tree(self) -> SelectorTree {
        match self {
            Selector::Default => SelectorTree::Default,
            Selector::Value(e) => SelectorTree::Value(e.tree()),
        }
    }
}

impl LoopStmt {
    pub open spec fn tree(self) -> LoopTree
        decreases self,
    {
        LoopTree {
            attributes: expr_trees(self.attributes@),
            body: self.body.tree(),
            continuing: match self.continuing {
                Some(c) => Some(c.tree()),
                None => None,
            },
        }
    }
}

impl Continuing {
    pub open spec fn tree(self) -> ContinuingTree
        decreases self,
    {
        ContinuingTree {
            attributes: expr_trees(self.attributes@),
            body: self.body.tree(),
            break_if: optional_condition(self.break_if),
        }
    }
}

impl ForStmt {
    pub open spec fn tree(self) -> ForTree
        decreases self,
    {
        ForTree {
            attributes: expr_trees(self.attributes@),
            initializer: match self.initializer {
                Some(s) => Some(Box::new(s.tree())),
                None => None,
            },
            condition: optional_expr(self.condition),
            update: match self.update {
                Some(s) => Some(Box::new(s.tree())),
                None => None,
            },
            body: self.body.tree(),
        }
    }
}

/// What each statement of a list says.
pub open spec fn stmt_trees(list: Seq<Stmt>) -> Seq<StmtTree>
    decreases list,
{
    Seq::new(list.len(), |i: int| if 0 <= i < list.len() { list[i].tree() } else { arbitrary() })
}

/// What each branch of a list says.
pub open spec fn branch_trees(list: Seq<Branch>) -> Seq<BranchTree>
    decreases list,
{
    Seq::new(list.len(), |i: int| if 0 <= i < list.len() { list[i].tree() } else { arbitrary() })
}

/// What each case of a list says.
pub open spec fn case_trees(list: Seq<SwitchCase>) -> Seq<CaseTree>
    decreases list,
{
    Seq::new(list.len(), |i: int| if 0 <= i < list.len() { list[i].tree() } else { arbitrary() })
}

/// What each selector of a list says.
pub open spec fn selector_trees(list: Seq<Selector>) -> Seq<SelectorTree> {
    list.map_values(|s: Selector| s.tree())
}

/// A declaration at the top level of a unit.
#[derive(Debug)]
pub enum GlobalDecl {
    Void,
    Declaration(Decl),
    TypeAlias(TypedName),
    Struct(StructDecl),
    Function(FunctionDecl),
    ConstAssert(Condition),
}

#[derive(Debug)]
pub struct StructDecl {
    pub attributes: Vec<Expr>,
    pub members: Vec<TypedName>,
}

#[derive(Debug)]
pub struct FunctionDecl {
    pub attributes: Vec<Expr>,
    pub parameters: Vec<TypedName>,
    pub return_attributes: Vec<Expr>,
    pub return_type: Option<TypeExpr>,
    pub body: Block,
}

/// What a [`GlobalDecl`] says.
#[verifier::ext_equal]
pub enum GlobalTree {
    Void,
    Declaration(DeclTree),
    TypeAlias(TypedTree),
    Struct(StructTree),
    Function(FunctionTree),
    ConstAssert(ConditionTree),
}

/// What a [`StructDecl`] says.
#[verifier::ext_equal]
pub struct StructTree {
    pub attributes: Seq<ExprTree>,
    pub members: Seq<TypedTree>,
}

/// What a [`FunctionDecl`] says.
#[verifier::ext_equal]
pub struct FunctionTree {
    pub attributes: Seq<ExprTree>,
    pub parameters: Seq<TypedTree>,
    pub return_attributes: Seq<ExprTree>,
    pub return_type: Option<TypeTree>,
    pub body: BlockTree,
}

impl GlobalDecl {
    pub open spec fn tree(self) -> GlobalTree {
        match self {
            GlobalDecl::Void => GlobalTree::Void,
            GlobalDecl::Declaration(decl) => GlobalTree::Declaration(decl.tree()),
            GlobalDecl::TypeAlias(alias) => GlobalTree::TypeAlias(alias.tree()),
            GlobalDecl::Struct(decl) => GlobalTree::Struct(decl.tree()),
            GlobalDecl::Function(function) => GlobalTree::Function(function.tree()),
            GlobalDecl::ConstAssert(condition) => GlobalTree::ConstAssert(condition.tree()),
        }
    }
}

impl StructDecl {
    pub open spec fn tree(self) -> StructTree {
        StructTree {
            attributes: expr_trees(self.attributes@),
            members: typed_trees(self.members@),
        }
    }
}

impl FunctionDecl {
    pub open spec fn tree(self) -> FunctionTree {
        FunctionTree {
            attributes: expr_trees(self.attributes@),
            parameters: typed_trees(self.parameters@),
            return_attributes: expr_trees(self.return_attributes@),
            return_type: optional_type(self.return_type),
            body: self.body.tree(),
        }
    }
}

/// What each declaration of a list says.
pub open spec fn global_trees(list: Seq<GlobalDecl>) -> Seq<GlobalTree> {
    list.map_values(|d: GlobalDecl| d.tree())
}

/// What an import names: one item, perhaps under another name, or a list of imports.
#[derive(Debug)]
pub enum Imported {
    Item { name: String, alias: Option<String> },
    List(Vec<ImportEntry>),
}

/// One import of a list: the names that lead to what it names.
#[derive(Debug)]
pub struct ImportEntry {
    pub names: Vec<String>,
    pub content: Imported,
}

/// An import statement. Without a path it holds a list whose entries lead with a package.
#[derive(Debug)]
pub struct ImportStmt {
    pub path: Option<WeslPath>,
    pub content: Imported,
}

/// What an [`Imported`] says.
#[verifier::ext_equal]
pub enum ImportedTree {
    Item { name: Seq<char>, alias: Option<Seq<char>> },
    List(Seq<EntryTree>),
}

/// What an [`ImportEntry`] says.
#[verifier::ext_equal]
pub struct EntryTree {
    pub names: Seq<Seq<char>>,
    pub content: ImportedTree,
}

/// What an [`ImportStmt`] says.
#[verifier::ext_equal]
pub struct ImportTree {
    pub path: Option<PathView>,
    pub content: ImportedTree,
}

/// What a string says, where there is one.
pub open spec fn optional_text(text: Option<String>) -> Option<Seq<char>> {
    match text {
        Some(s) => Some(s@),
        None => None,
    }
}

/// What a path says, where there is one.
pub open spec fn optional_path(path: Option<WeslPath>) -> Option<PathView> {
    match path {
        Some(p) => Some(p@),
        None => None,
    }
}

impl Imported {
    pub open spec fn tree(self) -> ImportedTree
        decreases self,
    {
        match self {
            Imported::Item { name, alias } => ImportedTree::Item {
                name: name@,
                alias: optional_text(alias),
            },
            Imported::List(list) => ImportedTree::List(entry_trees(list@)),
        }
    }
}

impl ImportEntry {
    pub open spec fn tree(self) -> EntryTree
        decreases self,
    {
        EntryTree { names: texts(self.names@), content: self.content.tree() }
    }
}

impl ImportStmt {
    pub open spec fn tree(self) -> ImportTree {
        ImportTree { path: optional_path(self.path), content: self.content.tree() }
    }
}

/// What each entry of a list says.
pub open spec fn entry_trees(list: Seq<ImportEntry>) -> Seq<EntryTree>
    decreases list,
{
    Seq::new(list.len(), |i: int| if 0 <= i < list.len() { list[i].tree() } else { arbitrary() })
}

/// What each import statement of a list says.
pub open spec fn import_trees(list: Seq<ImportStmt>) -> Seq<ImportTree> {
    list.map_values(|s: ImportStmt| s.tree())
}

/// The imports and the declarations of one source.
#[derive(Debug)]
pub struct Unit {
    pub imports: Vec<ImportStmt>,
    pub declarations: Vec<GlobalDecl>,
}

/// What a [`Unit`] says.
#[verifier::ext_equal]
pub struct UnitTree {
    pub imports: Seq<ImportTree>,
    pub declarations: Seq<GlobalTree>,
}

impl Unit {
    pub open spec fn tree(self) -> UnitTree {
        UnitTree {
            imports: import_trees(self.imports@),
            declarations: global_trees(self.declarations@),
        }
    }
}

}
