use vstd::prelude::*;

verus! {

broadcast use vstd::std_specs::vec::axiom_vec_decreases_to_view, vstd::seq::axiom_seq_index_decreases;

/// A block's statements double as a call's argument list.
pub type Args = Block;

pub type Params = Vec<Param>;

pub type Functions = Vec<Function>;

/// The primitive types of the source language; `Void` is legal only as a
/// function return type.
#[derive(Debug, Clone, Copy, PartialEq, Eq, Structural)]
pub enum Type {
    Int32,
    Bool,
    Void,
}

/// Arithmetic operator tokens.
#[derive(Debug, Clone, Copy, PartialEq, Eq, Structural)]
pub enum MathToken {
    Minus,
    Plus,
    Multiply,
    Division,
    Modulo,
}

/// Boolean operator tokens; `Not` is parsed but not evaluated.
#[derive(Debug, Clone, Copy, PartialEq, Eq, Structural)]
pub enum BoolToken {
    And,
    Or,
    Not,
}

/// Relational operator tokens.
#[derive(Debug, Clone, Copy, PartialEq, Eq, Structural)]
pub enum RelToken {
    Leq,
    Geq,
    Equal,
    Neq,
}

/// Assignment operator tokens.
#[derive(Debug, Clone, Copy, PartialEq, Eq, Structural)]
pub enum VarToken {
    Assign,
    PlusEq,
    MinEq,
    MulEq,
}

/// An operator carries exactly one of the four disjoint families.
#[derive(Debug, Clone, Copy, PartialEq, Eq, Structural)]
pub enum Op {
    MathOp(MathToken),
    BoolOp(BoolToken),
    RelOp(RelToken),
    VarOp(VarToken),
}

/// One lexical scope's ordered statement list.
#[derive(Debug, PartialEq, Eq)]
pub struct Block {
    pub content: Vec<Expr>,
}

/// A function parameter: a name and its declared type.
#[derive(Debug, PartialEq, Eq)]
pub struct Param {
    pub name: String,
    pub param_type: Type,
}

/// A function definition, immutable after parsing.
#[derive(Debug, PartialEq, Eq)]
pub struct Function {
    pub name: String,
    pub params: Params,
    pub block: Block,
    pub return_type: Type,
}

/// A call site: callee name and ordered argument expressions.
#[derive(Debug, PartialEq, Eq)]
pub struct FunctionCall {
    pub name: String,
    pub args: Args,
}

/// A runtime value; `Return` is the sentinel that unwinds the rest of a
/// block and carries the function's final result.
#[derive(Debug, PartialEq, Eq, Hash)]
pub enum Value {
    Num(i32),
    Var(String),
    Bool(bool),
    Return(Box<Value>),
}

/// An expression or statement of the source language.
#[derive(Debug, PartialEq, Eq)]
pub enum Expr {
    BinOp(Box<Expr>, Op, Box<Expr>),
    Num(i32),
    Var(String),
    Bool(bool),
    Let(Box<Expr>, Type, Box<Expr>),
    VarOp(Box<Expr>, Op, Box<Expr>),
    If(Box<Expr>, Block),
    IfElse(Box<Expr>, Block),
    While(Box<Expr>, Block),
    FuncCall(FunctionCall),
    Return(Box<Expr>),
}

/// Planned statement-level grouping of the syntax; kept as data only.
#[derive(Debug, PartialEq, Eq)]
pub enum Keyword {
    Let(Box<Node>, Type, Box<Node>),
    If(Box<Node>, Block),
    IfElse(Box<Node>, Block),
    While(Box<Node>, Block),
    FuncCall(FunctionCall),
    Return(Box<Node>),
}

/// Planned node shape uniting values, keywords and operator expressions.
#[derive(Debug, PartialEq, Eq)]
pub enum Node {
    Value(Value),
    Keyword(Keyword),
    Op(Box<Node>, Op, Box<Node>),
}

// ---------------------------------------------------------------------------
// Deep models: the mathematical shape of the syntax tree, with identifiers
// as character sequences. All contracts speak of these.
// ---------------------------------------------------------------------------

/// Deep model of a runtime value.
#[verifier::ext_equal]
pub enum SpecVal {
    Num(i32),
    Var(Seq<char>),
    Bool(bool),
    Return(Box<SpecVal>),
}

/// Deep model of a call site.
#[verifier::ext_equal]
pub struct SpecFunctionCall {
    pub name: Seq<char>,
    pub args: Seq<SpecExpr>,
}

/// Deep model of an expression.
#[verifier::ext_equal]
pub enum SpecExpr {
    BinOp(Box<SpecExpr>, Op, Box<SpecExpr>),
    Num(i32),
    Var(Seq<char>),
    Bool(bool),
    Let(Box<SpecExpr>, Type, Box<SpecExpr>),
    VarOp(Box<SpecExpr>, Op, Box<SpecExpr>),
    If(Box<SpecExpr>, Seq<SpecExpr>),
    IfElse(Box<SpecExpr>, Seq<SpecExpr>),
    While(Box<SpecExpr>, Seq<SpecExpr>),
    FuncCall(SpecFunctionCall),
    Return(Box<SpecExpr>),
}

/// Deep model of a parameter.
#[verifier::ext_equal]
pub struct SpecParam {
    pub name: Seq<char>,
    pub param_type: Type,
}

/// Deep model of a function definition.
#[verifier::ext_equal]
pub struct SpecFunction {
    pub name: Seq<char>,
    pub params: Seq<SpecParam>,
    pub block: Seq<SpecExpr>,
    pub return_type: Type,
}

impl DeepView for Type {
    type V = Type;

    open spec fn deep_view(&self) -> Type {
        *self
    }
}

pub open spec fn val_deep(v: Value) -> SpecVal
    decreases v,
{
    match v {
        Value::Num(n) => SpecVal::Num(n),
        Value::Var(s) => SpecVal::Var(s@),
        Value::Bool(b) => SpecVal::Bool(b),
        Value::Return(inner) => SpecVal::Return(Box::new(val_deep(*inner))),
    }
}

pub open spec fn expr_deep(e: Expr) -> SpecExpr
    decreases e,
{
    match e {
        Expr::BinOp(l, op, r) => SpecExpr::BinOp(
            Box::new(expr_deep(*l)),
            op,
            Box::new(expr_deep(*r)),
        ),
        Expr::Num(n) => SpecExpr::Num(n),
        Expr::Var(s) => SpecExpr::Var(s@),
        Expr::Bool(b) => SpecExpr::Bool(b),
        Expr::Let(v, t, e2) => SpecExpr::Let(Box::new(expr_deep(*v)), t, Box::new(expr_deep(*e2))),
        Expr::VarOp(v, op, e2) => SpecExpr::VarOp(
            Box::new(expr_deep(*v)),
            op,
            Box::new(expr_deep(*e2)),
        ),
        Expr::If(c, b) => SpecExpr::If(Box::new(expr_deep(*c)), exprs_deep(b.content@)),
        Expr::IfElse(c, b) => SpecExpr::IfElse(Box::new(expr_deep(*c)), exprs_deep(b.content@)),
        Expr::While(c, b) => SpecExpr::While(Box::new(expr_deep(*c)), exprs_deep(b.content@)),
        Expr::FuncCall(fc) => SpecExpr::FuncCall(
            SpecFunctionCall { name: fc.name@, args: exprs_deep(fc.args.content@) },
        ),
        Expr::Return(e2) => SpecExpr::Return(Box::new(expr_deep(*e2))),
    }
}

pub open spec fn exprs_deep(es: Seq<Expr>) -> Seq<SpecExpr>
    decreases es,
{
    if es.len() == 0 {
        Seq::empty()
    } else {
        seq![expr_deep(es.first())] + exprs_deep(es.drop_first())
    }
}

/// The deep view of a sequence of expressions is the sequence of their
/// deep views, element by element.
pub proof fn lemma_exprs_deep_elemwise(es: Seq<Expr>)
    ensures
        exprs_deep(es).len() == es.len(),
        forall|i: int| 0 <= i < es.len() ==> exprs_deep(es)[i] == expr_deep(es[i]),
    decreases es.len(),
{
    if es.len() > 0 {
        lemma_exprs_deep_elemwise(es.drop_first());
    }
}

impl DeepView for Value {
    type V = SpecVal;

    open spec fn deep_view(&self) -> SpecVal {
        val_deep(*self)
    }
}

impl DeepView for Expr {
    type V = SpecExpr;

    open spec fn deep_view(&self) -> SpecExpr {
        expr_deep(*self)
    }
}

impl DeepView for Block {
    type V = Seq<SpecExpr>;

    open spec fn deep_view(&self) -> Seq<SpecExpr> {
        exprs_deep(self.content@)
    }
}

impl DeepView for Param {
    type V = SpecParam;

    open spec fn deep_view(&self) -> SpecParam {
        SpecParam { name: self.name@, param_type: self.param_type }
    }
}

impl DeepView for FunctionCall {
    type V = SpecFunctionCall;

    open spec fn deep_view(&self) -> SpecFunctionCall {
        SpecFunctionCall { name: self.name@, args: exprs_deep(self.args.content@) }
    }
}

pub open spec fn params_deep(ps: Seq<Param>) -> Seq<SpecParam> {
    ps.map_values(|p: Param| SpecParam { name: p.name@, param_type: p.param_type })
}

impl DeepView for Function {
    type V = SpecFunction;

    open spec fn deep_view(&self) -> SpecFunction {
        SpecFunction {
            name: self.name@,
            params: params_deep(self.params@),
            block: exprs_deep(self.block.content@),
            return_type: self.return_type,
        }
    }
}

pub open spec fn functions_deep(fs: Seq<Function>) -> Seq<SpecFunction> {
    fs.map_values(|f: Function| f.deep_view())
}

// ---------------------------------------------------------------------------
// Structural size of an expression, the measure for the walks' recursion.
// ---------------------------------------------------------------------------

pub open spec fn sz_expr(e: SpecExpr) -> nat
    decreases e,
{
    match e {
        SpecExpr::BinOp(l, _, r) => 1 + sz_expr(*l) + sz_expr(*r),
        SpecExpr::Num(_) => 1,
        SpecExpr::Var(_) => 1,
        SpecExpr::Bool(_) => 1,
        SpecExpr::Let(v, _, e2) => 1 + sz_expr(*v) + sz_expr(*e2),
        SpecExpr::VarOp(v, _, e2) => 1 + sz_expr(*v) + sz_expr(*e2),
        SpecExpr::If(c, b) => 1 + sz_expr(*c) + sz_exprs(b),
        SpecExpr::IfElse(c, b) => 1 + sz_expr(*c) + sz_exprs(b),
        SpecExpr::While(c, b) => 1 + sz_expr(*c) + sz_exprs(b),
        SpecExpr::FuncCall(fc) => 1 + sz_exprs(fc.args),
        SpecExpr::Return(e2) => 1 + sz_expr(*e2),
    }
}

pub open spec fn sz_exprs(es: Seq<SpecExpr>) -> nat
    decreases es,
{
    if es.len() == 0 {
        1
    } else {
        1 + sz_expr(es.first()) + sz_exprs(es.drop_first())
    }
}

/// Every expression has positive size.
pub proof fn lemma_sz_expr_pos(e: SpecExpr)
    ensures
        sz_expr(e) >= 1,
{
}

/// Each element of a statement list is strictly smaller than the list.
pub proof fn lemma_sz_exprs_elem(es: Seq<SpecExpr>, i: int)
    requires
        0 <= i < es.len(),
    ensures
        sz_expr(es[i]) < sz_exprs(es),
    decreases es.len(),
{
    if i == 0 {
    } else {
        lemma_sz_exprs_elem(es.drop_first(), i - 1);
    }
}

// ---------------------------------------------------------------------------
// Cloning: a clone keeps the deep view of the original.
// ---------------------------------------------------------------------------

impl Clone for Value {
    /// A cloned value equals the original.
    fn clone(&self) -> (r: Self)
        ensures
            r == *self,
        decreases *self,
    {
        match self {
            Value::Num(n) => Value::Num(*n),
            Value::Var(s) => Value::Var(s.clone()),
            Value::Bool(b) => Value::Bool(*b),
            Value::Return(inner) => Value::Return(Box::new((&**inner).clone())),
        }
    }
}

impl Clone for Expr {
    /// A cloned expression has the deep view of the original.
    fn clone(&self) -> (r: Self)
        ensures
            r.deep_view() == self.deep_view(),
        decreases *self,
    {
        match self {
            Expr::BinOp(l, op, r) => Expr::BinOp(
                Box::new((&**l).clone()),
                *op,
                Box::new((&**r).clone()),
            ),
            Expr::Num(n) => Expr::Num(*n),
            Expr::Var(s) => Expr::Var(s.clone()),
            Expr::Bool(b) => Expr::Bool(*b),
            Expr::Let(v, t, e2) => Expr::Let(
                Box::new((&**v).clone()),
                *t,
                Box::new((&**e2).clone()),
            ),
            Expr::VarOp(v, op, e2) => Expr::VarOp(
                Box::new((&**v).clone()),
                *op,
                Box::new((&**e2).clone()),
            ),
            Expr::If(c, b) => {
                let r = Expr::If(Box::new((&**c).clone()), b.clone());
                proof {
                    assert(r.deep_view() =~~= self.deep_view());
                }
                r
            },
            Expr::IfElse(c, b) => {
                let r = Expr::IfElse(Box::new((&**c).clone()), b.clone());
                proof {
                    assert(r.deep_view() =~~= self.deep_view());
                }
                r
            },
            Expr::While(c, b) => {
                let r = Expr::While(Box::new((&**c).clone()), b.clone());
                proof {
                    assert(r.deep_view() =~~= self.deep_view());
                }
                r
            },
            Expr::FuncCall(fc) => {
                let r = Expr::FuncCall(fc.clone());
                proof {
                    assert(r.deep_view() =~~= self.deep_view());
                }
                r
            },
            Expr::Return(e2) => Expr::Return(Box::new((&**e2).clone())),
        }
    }
}

/// Clones a statement list element by element.
pub fn clone_exprs(v: &Vec<Expr>) -> (r: Vec<Expr>)
    ensures
        r.deep_view() == v.deep_view(),
        r@.len() == v@.len(),
        forall|j: int| 0 <= j < v@.len() ==> expr_deep(#[trigger] r@[j]) == expr_deep(v@[j]),
    decreases *v,
{
    let mut r: Vec<Expr> = Vec::new();
    let mut i: usize = 0;
    while i < v.len()
        invariant
            i <= v.len(),
            r@.len() == i,
            forall|j: int| 0 <= j < i ==> expr_deep(#[trigger] r@[j]) == expr_deep(v@[j]),
        decreases v.len() - i,
    {
        assert(decreases_to!(*v => v@[i as int]));
        let e = v[i].clone();
        r.push(e);
        i = i + 1;
    }
    assert(r.deep_view() =~= v.deep_view());
    r
}

impl Clone for Block {
    /// A cloned block has the deep view of the original.
    fn clone(&self) -> (r: Self)
        ensures
            r.deep_view() == self.deep_view(),
        decreases *self,
    {
        proof {
            assert(decreases_to!(*self => self.content));
        }
        let r = Block { content: clone_exprs(&self.content) };
        proof {
            lemma_exprs_deep_elemwise(r.content@);
            lemma_exprs_deep_elemwise(self.content@);
            assert(exprs_deep(r.content@) =~= exprs_deep(self.content@));
        }
        r
    }
}

impl Clone for Param {
    /// A cloned parameter equals the original.
    fn clone(&self) -> (r: Self)
        ensures
            r == *self,
    {
        Param { name: self.name.clone(), param_type: self.param_type }
    }
}

impl Clone for FunctionCall {
    /// A cloned call site has the deep view of the original.
    fn clone(&self) -> (r: Self)
        ensures
            r.deep_view() == self.deep_view(),
        decreases *self,
    {
        proof {
            assert(decreases_to!(*self => self.args));
            assert(decreases_to!(self.args => self.args.content));
        }
        let r = FunctionCall {
            name: self.name.clone(),
            args: Block { content: clone_exprs(&self.args.content) },
        };
        proof {
            lemma_exprs_deep_elemwise(r.args.content@);
            lemma_exprs_deep_elemwise(self.args.content@);
            assert(exprs_deep(r.args.content@) =~= exprs_deep(self.args.content@));
            assert(r.deep_view() =~~= self.deep_view());
        }
        r
    }
}

/// Clones a parameter list element by element.
pub fn clone_params(v: &Vec<Param>) -> (r: Vec<Param>)
    ensures
        r@ =~= v@,
{
    let mut r: Vec<Param> = Vec::new();
    let mut i: usize = 0;
    while i < v.len()
        invariant
            i <= v.len(),
            r@.len() == i,
            forall|j: int| 0 <= j < i ==> r@[j] == v@[j],
        decreases v.len() - i,
    {
        let p = v[i].clone();
        r.push(p);
        i = i + 1;
    }
    r
}

impl Clone for Function {
    /// A cloned function definition has the deep view of the original.
    fn clone(&self) -> (r: Self)
        ensures
            r.deep_view() == self.deep_view(),
    {
        let r = Function {
            name: self.name.clone(),
            params: clone_params(&self.params),
            block: self.block.clone(),
            return_type: self.return_type,
        };
        proof {
            assert(params_deep(r.params@) =~= params_deep(self.params@));
            assert(r.deep_view() =~~= self.deep_view());
        }
        r
    }
}

// ---------------------------------------------------------------------------
// Constructors.
// ---------------------------------------------------------------------------

impl Block {
    /// Wraps a statement list as a block.
    pub fn new(exprs: Vec<Expr>) -> (r: Block)
        ensures
            r.content == exprs,
    {
        Block { content: exprs }
    }
}

impl Param {
    /// Builds a parameter from a name and its declared type.
    pub fn new(name: String, param_type: Type) -> (r: Param)
        ensures
            r.name == name,
            r.param_type == param_type,
    {
        Param { name, param_type }
    }
}

impl Function {
    /// Builds a function definition from its parts.
    pub fn new(name: String, params: Params, block: Block, return_type: Type) -> (r: Self)
        ensures
            r.name == name,
            r.params == params,
            r.block == block,
            r.return_type == return_type,
    {
        Function { name, params, block, return_type }
    }
}

impl FunctionCall {
    /// Builds a call site from a callee name and argument list.
    pub fn new(name: String, args: Args) -> (r: Self)
        ensures
            r.name == name,
            r.args == args,
    {
        FunctionCall { name, args }
    }
}

} // verus!
