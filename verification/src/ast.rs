//! The expression tree: a closed, tag-discriminated union with one variant
//! per node kind, dispatched by pattern match.
//!
//! The tree is built once by the external parser, read by the code generator,
//! and never rewritten.  An identifier carries only its name; binding is
//! resolved at compile time against the scope chain.  Numeric constants come
//! in three kinds sharing one category: signed, unsigned and floating-point,
//! the last carried as its raw IEEE-754 bit pattern (see [`crate::cell`]).

use vstd::prelude::*;
use vstd::string::StringExecFns;

verus! {

/// Any expression of the language: a whole program, an S-expression
/// (function application or special form), an identifier, a list literal, or
/// a constant.
#[derive(PartialEq, Debug)]
pub enum ExprNode {
    Root(RootNode),
    SExpr(SExprNode),
    Name(NameNode),
    ListConst(ListNode),
    NumConst(NumNode),
    BoolConst(BoolNode),
    StringConst(StringNode),
    CharConst(CharNode),
}

/// A numeric constant: signed, unsigned, or floating-point.
#[derive(Clone, PartialEq, Debug)]
pub enum NumNode {
    IntConst(IntNode),
    UIntConst(UIntNode),
    FloatConst(FloatNode),
}

/// The root of a program's tree: its top-level expressions in source order.
#[derive(PartialEq, Debug)]
pub struct RootNode {
    pub exprs: Vec<ExprNode>,
}

/// An S-expression: an operator (always an identifier in this design) and
/// its operands.  Special forms are selected by the operator's name, not by
/// a separate tag.
#[derive(PartialEq, Debug)]
pub struct SExprNode {
    pub operator: NameNode,
    pub operands: Vec<ExprNode>,
}

/// A list literal, compiled as literal data rather than as an application.
#[derive(PartialEq, Debug)]
pub struct ListNode {
    pub elements: Vec<ExprNode>,
}

/// An identifier.
#[derive(Clone, PartialEq, Debug)]
pub struct NameNode {
    pub name: String,
}

/// A signed integer constant.
#[derive(Clone, PartialEq, Debug)]
pub struct IntNode {
    pub value: isize,
}

/// An unsigned integer constant.
#[derive(Clone, PartialEq, Debug)]
pub struct UIntNode {
    pub value: usize,
}

/// A floating-point constant, carried as the raw IEEE-754 bit pattern of the
/// 64-bit value so that the compiler never computes on it.
#[derive(Clone, PartialEq, Debug)]
pub struct FloatNode {
    pub bits: u64,
}

/// A boolean constant.
#[derive(Clone, PartialEq, Debug)]
pub struct BoolNode {
    pub value: bool,
}

/// A character constant.
#[derive(Clone, PartialEq, Debug)]
pub struct CharNode {
    pub value: char,
}

/// A string constant.
#[derive(Clone, PartialEq, Debug)]
pub struct StringNode {
    pub value: String,
}

/// Whether every member of a parameter list is an identifier.
pub open spec fn all_names(s: Seq<ExprNode>) -> bool {
    forall|i: int| 0 <= i < s.len() ==> s[i] is Name
}

/// A tree the compiler has a rule for, input for input: exactly the trees on
/// which every subtree that gets compiled is itself compilable.
pub open spec fn wf_expr(e: ExprNode) -> bool
    decreases e,
{
    match e {
        ExprNode::Root(r) => wf_exprs_upto(r.exprs@, r.exprs@.len() as int),
        ExprNode::SExpr(sn) => wf_sexpr(sn),
        ExprNode::ListConst(l) => wf_exprs_upto(l.elements@, l.elements@.len() as int),
        _ => true,
    }
}

/// The well-formedness of one S-expression, by the rule its operator name
/// selects.  A special form is admitted at any arity — a wrong arity is a
/// structured malformed-form failure, never an excluded input — so a
/// conditional only needs compilable operands when it has exactly three of
/// them, the ones that are compiled.  A lambda's parameter list is a binding
/// list whose members are read as names, never compiled, so it may be empty
/// (a single-parameter lambda) and only the body, compiled when the shape
/// and the parameter names are in order, must itself be well-formed.  A
/// general application must have at least one operand: the rules define only
/// unary and multi-operand application.
pub open spec fn wf_sexpr(sn: SExprNode) -> bool
    decreases sn,
{
    if sn.operator.name@ == "if"@ {
        sn.operands@.len() == 3 ==> wf_exprs_upto(sn.operands@, sn.operands@.len() as int)
    } else if sn.operator.name@ == "lambda"@ {
        (sn.operands@.len() == 2 && sn.operands@[0] is SExpr && sn.operands@[1] is SExpr
            && all_names(sn.operands@[0]->SExpr_0.operands@)) ==> wf_expr(sn.operands@[1])
    } else {
        sn.operands@.len() >= 1 && wf_exprs_upto(sn.operands@, sn.operands@.len() as int)
    }
}

/// The first `n` trees of a sequence are well-formed.
pub open spec fn wf_exprs_upto(s: Seq<ExprNode>, n: int) -> bool
    decreases s, n,
{
    if n <= 0 || n > s.len() {
        true
    } else {
        wf_exprs_upto(s, n - 1) && wf_expr(s[n - 1])
    }
}

/// A whole sequence of well-formed trees.
pub open spec fn wf_exprs(s: Seq<ExprNode>) -> bool {
    wf_exprs_upto(s, s.len() as int)
}

/// Every tree of a well-formed sequence is well-formed.
pub proof fn lemma_wf_exprs_index(s: Seq<ExprNode>, i: int)
    requires
        wf_exprs(s),
        0 <= i < s.len(),
    ensures
        wf_expr(s[i]),
{
    lemma_wf_exprs_upto_index(s, s.len() as int, i);
}

proof fn lemma_wf_exprs_upto_index(s: Seq<ExprNode>, n: int, i: int)
    requires
        wf_exprs_upto(s, n),
        0 <= i < n <= s.len(),
    ensures
        wf_expr(s[i]),
    decreases n,
{
    if i < n - 1 {
        lemma_wf_exprs_upto_index(s, n - 1, i);
    }
}

/// The reserved words of the language.
pub open spec fn is_keyword(n: Seq<char>) -> bool {
    ||| n == "access"@
    ||| n == "define-syntax"@
    ||| n == "macro"@
    ||| n == "and"@
    ||| n == "delay"@
    ||| n == "make-environment"@
    ||| n == "begin"@
    ||| n == "do"@
    ||| n == "named-lambda"@
    ||| n == "bkpt"@
    ||| n == "fluid-let"@
    ||| n == "or"@
    ||| n == "case"@
    ||| n == "if"@
    ||| n == "quasiquote"@
    ||| n == "cond"@
    ||| n == "in-package"@
    ||| n == "quote"@
    ||| n == "cons-stream"@
    ||| n == "lambda"@
    ||| n == "scode-quote"@
    ||| n == "declare"@
    ||| n == "let"@
    ||| n == "sequence"@
    ||| n == "default-object?"@
    ||| n == "let*"@
    ||| n == "set!"@
    ||| n == "define"@
    ||| n == "let-syntax"@
    ||| n == "the-environment"@
    ||| n == "define-integrable"@
    ||| n == "letrec"@
    ||| n == "unassigned?"@
    ||| n == "define-macro"@
    ||| n == "local-declare"@
    ||| n == "using-syntax"@
    ||| n == "define-structure"@
    ||| n == "car"@
    ||| n == "cdr"@
    ||| n == "cons"@
    ||| n == "nil"@
    ||| n == "nil?"@
    ||| n == "atom?"@
}

/// The arithmetic operator names.
pub open spec fn is_arith_op(n: Seq<char>) -> bool {
    ||| n == "+"@
    ||| n == "-"@
    ||| n == "*"@
    ||| n == "/"@
    ||| n == "%"@
}

/// The comparison operator names.
pub open spec fn is_cmp_op(n: Seq<char>) -> bool {
    ||| n == "="@
    ||| n == "!="@
    ||| n == ">"@
    ||| n == "<"@
    ||| n == ">="@
    ||| n == "<="@
}

/// True exactly when a name's view equals the literal's.
pub fn name_is(n: &String, lit: &str) -> (r: bool)
    ensures
        r == (n@ == lit@),
{
    let l = String::from_str(lit);
    String::eq(n, &l)
}

impl NameNode {
    pub fn new(name: String) -> (r: Self)
        ensures
            r.name@ == name@,
    {
        NameNode { name }
    }

    /// Whether this identifier is a reserved word.
    pub fn is_kw(&self) -> (r: bool)
        ensures
            r == is_keyword(self.name@),
    {
        name_is(&self.name, "access") || name_is(&self.name, "define-syntax") || name_is(
            &self.name,
            "macro",
        ) || name_is(&self.name, "and") || name_is(&self.name, "delay") || name_is(
            &self.name,
            "make-environment",
        ) || name_is(&self.name, "begin") || name_is(&self.name, "do") || name_is(
            &self.name,
            "named-lambda",
        ) || name_is(&self.name, "bkpt") || name_is(&self.name, "fluid-let") || name_is(
            &self.name,
            "or",
        ) || name_is(&self.name, "case") || name_is(&self.name, "if") || name_is(
            &self.name,
            "quasiquote",
        ) || name_is(&self.name, "cond") || name_is(&self.name, "in-package") || name_is(
            &self.name,
            "quote",
        ) || name_is(&self.name, "cons-stream") || name_is(&self.name, "lambda") || name_is(
            &self.name,
            "scode-quote",
        ) || name_is(&self.name, "declare") || name_is(&self.name, "let") || name_is(
            &self.name,
            "sequence",
        ) || name_is(&self.name, "default-object?") || name_is(&self.name, "let*") || name_is(
            &self.name,
            "set!",
        ) || name_is(&self.name, "define") || name_is(&self.name, "let-syntax") || name_is(
            &self.name,
            "the-environment",
        ) || name_is(&self.name, "define-integrable") || name_is(&self.name, "letrec") || name_is(
            &self.name,
            "unassigned?",
        ) || name_is(&self.name, "define-macro") || name_is(&self.name, "local-declare")
            || name_is(&self.name, "using-syntax") || name_is(&self.name, "define-structure")
            || name_is(&self.name, "car") || name_is(&self.name, "cdr") || name_is(
            &self.name,
            "cons",
        ) || name_is(&self.name, "nil") || name_is(&self.name, "nil?") || name_is(
            &self.name,
            "atom?",
        )
    }

    /// Whether this identifier is an arithmetic operator.
    pub fn is_arith(&self) -> (r: bool)
        ensures
            r == is_arith_op(self.name@),
    {
        name_is(&self.name, "+") || name_is(&self.name, "-") || name_is(&self.name, "*")
            || name_is(&self.name, "/") || name_is(&self.name, "%")
    }

    /// Whether this identifier is a comparison operator.
    pub fn is_cmp(&self) -> (r: bool)
        ensures
            r == is_cmp_op(self.name@),
    {
        name_is(&self.name, "=") || name_is(&self.name, "!=") || name_is(&self.name, ">")
            || name_is(&self.name, "<") || name_is(&self.name, ">=") || name_is(&self.name, "<=")
    }
}

} // verus!
