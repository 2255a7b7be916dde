//! The code generator: one compilation rule per tree variant, each returning
//! either a whole code list or a structured failure, never partial output.
//!
//! The rules are stated first as spec functions over the mathematical shapes
//! of the tree, the scope chain and the code list; every executable `compile`
//! method is proved to return exactly what the corresponding rule says.

use vstd::prelude::*;

use crate::ast::ExprNode;
use crate::ast::ListNode;
use crate::ast::NameNode;
use crate::ast::NumNode;
use crate::ast::RootNode;
use crate::ast::SExprNode;
use crate::ast::BoolNode;
use crate::ast::CharNode;
use crate::ast::StringNode;
use crate::ast::all_names;
use crate::ast::name_is;
use crate::ast::wf_expr;
use crate::ast::wf_exprs;
use crate::ast::wf_sexpr;
use crate::ast::lemma_wf_exprs_index;
use crate::cell::Atom;
use crate::cell::Cell;
use crate::cell::CellV;
use crate::cell::CompileErrV;
use crate::cell::CompileError;
use crate::cell::CompileResult;
use crate::cell::cell_view;
use crate::cell::cells_view;
use crate::cell::lemma_cells_view_upto_full;
use crate::cell::result_view;
use crate::scope::Scope;
use crate::scope::SymTable;
use crate::scope::chain_lookup;

verus! {

broadcast use vstd::std_specs::vec::group_vec_axioms, vstd::seq::group_seq_axioms;

/// A code list or a failure, in mathematical shape.
pub type CodeResult = Result<Seq<CellV>, CompileErrV>;

/// The single instruction a built-in primitive name compiles to, or `None`
/// when the name is not a primitive.
pub open spec fn prim_inst(n: Seq<char>) -> Option<crate::cell::Inst> {
    if n == "cons"@ {
        Some(crate::cell::Inst::CONS)
    } else if n == "car"@ {
        Some(crate::cell::Inst::CAR)
    } else if n == "cdr"@ {
        Some(crate::cell::Inst::CDR)
    } else if n == "nil"@ {
        Some(crate::cell::Inst::NIL)
    } else if n == "nil?"@ {
        Some(crate::cell::Inst::NULL)
    } else if n == "atom?"@ {
        Some(crate::cell::Inst::ATOM)
    } else if n == "+"@ {
        Some(crate::cell::Inst::ADD)
    } else if n == "-"@ {
        Some(crate::cell::Inst::SUB)
    } else if n == "*"@ {
        Some(crate::cell::Inst::MUL)
    } else if n == "/"@ {
        Some(crate::cell::Inst::DIV)
    } else if n == "%"@ {
        Some(crate::cell::Inst::MOD)
    } else if n == "="@ {
        Some(crate::cell::Inst::EQ)
    } else if n == ">"@ {
        Some(crate::cell::Inst::GT)
    } else if n == ">="@ {
        Some(crate::cell::Inst::GTE)
    } else if n == "<"@ {
        Some(crate::cell::Inst::LT)
    } else if n == "<="@ {
        Some(crate::cell::Inst::LTE)
    } else {
        None
    }
}

/// The environment-access code for a resolved variable: a load-variable
/// instruction carrying the `(frame, slot)` coordinate as a literal list of
/// two unsigned atoms — the operand shape the execution engine pops for
/// `LD`, a data operand and not a sub-program.
pub open spec fn load_var(d: int, s: int) -> Seq<CellV> {
    seq![
        CellV::Inst(crate::cell::Inst::LD),
        CellV::List(
            seq![CellV::Atom(Atom::UInt(d as usize)), CellV::Atom(Atom::UInt(s as usize))],
        ),
    ]
}

/// The compilation rule for an identifier: a primitive name compiles to its
/// single instruction; any other name compiles to an environment access at
/// the coordinate the scope chain gives it, and is an unbound-identifier
/// failure naming it when the chain gives none.
pub open spec fn sc_name(n: Seq<char>, st: Seq<Seq<Seq<char>>>) -> CodeResult {
    match prim_inst(n) {
        Some(i) => Ok(seq![CellV::Inst(i)]),
        None => match chain_lookup(st, n) {
            Some(c) => Ok(load_var(c.0, c.1)),
            None => Err(CompileErrV::UnboundIdentifier(n)),
        },
    }
}

/// The literal atom a numeric constant compiles to, tagged with its kind.
pub open spec fn num_atom(n: NumNode) -> Atom {
    match n {
        NumNode::IntConst(i) => Atom::SInt(i.value),
        NumNode::UIntConst(u) => Atom::UInt(u.value),
        NumNode::FloatConst(f) => Atom::Float(f.bits),
    }
}

/// One character wrapped as a literal character atom.
pub open spec fn char_atom(c: char) -> CellV {
    CellV::Atom(Atom::Char(c))
}

/// The literal list of character atoms a string constant compiles to.
pub open spec fn string_chars(s: Seq<char>) -> Seq<CellV> {
    Seq::new(s.len(), |i: int| char_atom(s[i]))
}

/// Concatenation of a sequence of rule results, in order: the first failure
/// short-circuits, otherwise the code lists are joined.
pub open spec fn cat_results(rs: Seq<CodeResult>) -> CodeResult
    decreases rs.len(),
{
    if rs.len() == 0 {
        Ok(Seq::empty())
    } else {
        match cat_results(rs.drop_last()) {
            Err(e) => Err(e),
            Ok(c) => match rs.last() {
                Err(e) => Err(e),
                Ok(l) => Ok(c + l),
            },
        }
    }
}

/// The reverse fold of a multi-operand application, seen from operand `i`
/// rightward: the rightmost operand's code, then each earlier operand's code
/// followed by one copy of the operator's code.  Failures surface in the
/// order the pieces are compiled: the rightmost operand first, then, per
/// earlier operand, the operand and then the operator.
pub open spec fn fold_rev(cs: Seq<CodeResult>, opc: CodeResult, i: int) -> CodeResult
    decreases cs.len() - i,
{
    if i < 0 || i >= cs.len() {
        Ok(Seq::empty())
    } else if i == cs.len() - 1 {
        cs[i]
    } else {
        match fold_rev(cs, opc, i + 1) {
            Err(e) => Err(e),
            Ok(acc) => match cs[i] {
                Err(e) => Err(e),
                Ok(ci) => match opc {
                    Err(e) => Err(e),
                    Ok(oc) => Ok(acc + ci + oc),
                },
            },
        }
    }
}

/// The rule results of the first `n` trees of a sequence, in order.
pub open spec fn sc_results_upto(s: Seq<ExprNode>, st: Seq<Seq<Seq<char>>>, n: int) -> Seq<
    CodeResult,
>
    decreases s, n,
{
    if n <= 0 || n > s.len() {
        Seq::empty()
    } else {
        sc_results_upto(s, st, n - 1).push(sc_expr(s[n - 1], st))
    }
}

/// The rule results of a whole sequence of trees, in order.
pub open spec fn sc_results(s: Seq<ExprNode>, st: Seq<Seq<Seq<char>>>) -> Seq<CodeResult>
    decreases s, s.len() + 1,
{
    sc_results_upto(s, st, s.len() as int)
}

/// The names a lambda's parameter list binds, in source order: the
/// operator-position name first, then each operand-position name.
pub open spec fn param_names(params: SExprNode) -> Seq<Seq<char>> {
    seq![params.operator.name@] + Seq::new(
        params.operands@.len(),
        |i: int| params.operands@[i]->Name_0.name@,
    )
}

/// The compilation rule for an S-expression, selected by the operator name.
pub open spec fn sc_sexpr(sn: SExprNode, st: Seq<Seq<Seq<char>>>) -> CodeResult
    decreases sn,
{
    if sn.operator.name@ == "if"@ {
        if sn.operands@.len() == 3 {
            match sc_expr(sn.operands@[0], st) {
                Err(e) => Err(e),
                Ok(cond) => match sc_expr(sn.operands@[2], st) {
                    Err(e) => Err(e),
                    Ok(fa) => match sc_expr(sn.operands@[1], st) {
                        Err(e) => Err(e),
                        Ok(tr) => Ok(
                            cond + seq![
                                CellV::Inst(crate::cell::Inst::SEL),
                                CellV::List(tr.push(CellV::Inst(crate::cell::Inst::JOIN))),
                                CellV::List(fa.push(CellV::Inst(crate::cell::Inst::JOIN))),
                            ],
                        ),
                    },
                },
            }
        } else {
            Err(CompileErrV::MalformedIf)
        }
    } else if sn.operator.name@ == "lambda"@ {
        if sn.operands@.len() == 2 && sn.operands@[0] is SExpr && sn.operands@[1] is SExpr
            && all_names(sn.operands@[0]->SExpr_0.operands@) {
            match sc_expr(sn.operands@[1], st.push(param_names(sn.operands@[0]->SExpr_0))) {
                Err(e) => Err(e),
                Ok(body) => Ok(
                    seq![
                        CellV::Inst(crate::cell::Inst::LDF),
                        CellV::List(body.push(CellV::Inst(crate::cell::Inst::RET))),
                    ],
                ),
            }
        } else {
            Err(CompileErrV::MalformedLambda)
        }
    } else {
        let opc = sc_name(sn.operator.name@, st);
        if sn.operands@.len() == 1 {
            match sc_expr(sn.operands@[0], st) {
                Err(e) => Err(e),
                Ok(c) => match opc {
                    Err(e) => Err(e),
                    Ok(oc) => Ok(c + oc),
                },
            }
        } else {
            fold_rev(sc_results(sn.operands@, st), opc, 0)
        }
    }
}

/// The compilation rule for any tree.
///
/// A root concatenates its top-level expressions' code in source order,
/// against one shared scope chain.  Constants load themselves: a number or a
/// character as a load-constant instruction and its tagged payload, boolean
/// truth as the canonical integer 1, boolean falsity as the empty-list
/// instruction (the classic conflation of falsity with the empty list,
/// preserved deliberately), and a string as a literal list of its character
/// atoms.  A list literal packages its elements' code as one literal list
/// operand.  Identifiers and S-expressions follow [`sc_name`] and
/// [`sc_sexpr`].
pub open spec fn sc_expr(e: ExprNode, st: Seq<Seq<Seq<char>>>) -> CodeResult
    decreases e,
{
    match e {
        ExprNode::Root(r) => cat_results(sc_results(r.exprs@, st)),
        ExprNode::SExpr(sn) => sc_sexpr(sn, st),
        ExprNode::Name(n) => sc_name(n.name@, st),
        ExprNode::ListConst(l) => match cat_results(sc_results(l.elements@, st)) {
            Err(e) => Err(e),
            Ok(c) => Ok(seq![CellV::List(c)]),
        },
        ExprNode::NumConst(n) => Ok(
            seq![CellV::Inst(crate::cell::Inst::LDC), CellV::Atom(num_atom(n))],
        ),
        ExprNode::BoolConst(b) => if b.value {
            Ok(seq![CellV::Inst(crate::cell::Inst::LDC), CellV::Atom(Atom::SInt(1))])
        } else {
            Ok(seq![CellV::Inst(crate::cell::Inst::NIL)])
        },
        ExprNode::CharConst(c) => Ok(
            seq![CellV::Inst(crate::cell::Inst::LDC), CellV::Atom(Atom::Char(c.value))],
        ),
        ExprNode::StringConst(s) => Ok(seq![CellV::List(string_chars(s.value@))]),
    }
}

/// The elementwise description of a sequence's rule results.
pub proof fn lemma_sc_results(s: Seq<ExprNode>, st: Seq<Seq<Seq<char>>>)
    ensures
        sc_results(s, st).len() == s.len(),
        forall|i: int| 0 <= i < s.len() ==> sc_results(s, st)[i] == sc_expr(s[i], st),
{
    lemma_sc_results_upto(s, st, s.len() as int);
}

proof fn lemma_sc_results_upto(s: Seq<ExprNode>, st: Seq<Seq<Seq<char>>>, n: int)
    requires
        0 <= n <= s.len(),
    ensures
        sc_results_upto(s, st, n).len() == n,
        forall|i: int| 0 <= i < n ==> sc_results_upto(s, st, n)[i] == sc_expr(s[i], st),
    decreases n,
{
    if n > 0 {
        lemma_sc_results_upto(s, st, n - 1);
    }
}

/// Once a prefix of the results fails, the whole concatenation fails the
/// same way: the first failure short-circuits.
pub proof fn lemma_cat_err_extend(rs: Seq<CodeResult>, i: int)
    requires
        0 <= i <= rs.len(),
        cat_results(rs.take(i)) is Err,
    ensures
        cat_results(rs) == cat_results(rs.take(i)),
    decreases rs.len() - i,
{
    if i == rs.len() {
        assert(rs.take(i) =~= rs);
    } else {
        assert(rs.take(i + 1).drop_last() =~= rs.take(i));
        assert(cat_results(rs.take(i + 1)) == cat_results(rs.take(i)));
        lemma_cat_err_extend(rs, i + 1);
    }
}

/// Once the fold fails at some operand, it fails the same way from every
/// operand to its left: the first failure short-circuits.
pub proof fn lemma_fold_rev_err(cs: Seq<CodeResult>, opc: CodeResult, i: int, j: int)
    requires
        0 <= j <= i < cs.len(),
        fold_rev(cs, opc, i) is Err,
    ensures
        fold_rev(cs, opc, j) == fold_rev(cs, opc, i),
    decreases i - j,
{
    if j < i {
        lemma_fold_rev_err(cs, opc, i, j + 1);
    }
}

/// One instruction as a whole code list.
fn single_inst(i: crate::cell::Inst) -> (r: Vec<Cell>)
    ensures
        cells_view(r@) == seq![CellV::Inst(i)],
{
    let mut out: Vec<Cell> = Vec::new();
    out.push(Cell::Inst(i));
    proof {
        assert(cells_view(out@) =~= seq![CellV::Inst(i)]);
    }
    out
}

/// The environment-access code for a resolved variable.
fn load_var_code(d: usize, s: usize) -> (r: Vec<Cell>)
    ensures
        cells_view(r@) == load_var(d as int, s as int),
{
    let mut coord: Vec<Cell> = Vec::new();
    coord.push(Cell::Atom(Atom::UInt(d)));
    coord.push(Cell::Atom(Atom::UInt(s)));
    proof {
        lemma_cells_view_upto_full(coord@);
        assert(cells_view(coord@) =~= seq![
            CellV::Atom(Atom::UInt(d)),
            CellV::Atom(Atom::UInt(s)),
        ]);
    }
    let lst = Cell::List(coord);
    let ghost lv = cell_view(lst);
    let mut out: Vec<Cell> = Vec::new();
    out.push(Cell::Inst(crate::cell::Inst::LD));
    out.push(lst);
    proof {
        assert(lv == load_var(d as int, s as int)[1]);
        assert(cells_view(out@) =~= load_var(d as int, s as int));
    }
    out
}

impl NameNode {
    /// Compiles this identifier: a primitive name becomes its single
    /// instruction; any other name becomes an environment access at the
    /// coordinate the scope chain resolves it to, or an unbound-identifier
    /// failure naming it when no enclosing frame binds it.
    pub fn compile(&self, state: &SymTable) -> (r: CompileResult)
        ensures
            result_view(r) == sc_name(self.name@, state@),
    {
        if name_is(&self.name, "cons") {
            Ok(single_inst(crate::cell::Inst::CONS))
        } else if name_is(&self.name, "car") {
            Ok(single_inst(crate::cell::Inst::CAR))
        } else if name_is(&self.name, "cdr") {
            Ok(single_inst(crate::cell::Inst::CDR))
        } else if name_is(&self.name, "nil") {
            Ok(single_inst(crate::cell::Inst::NIL))
        } else if name_is(&self.name, "nil?") {
            Ok(single_inst(crate::cell::Inst::NULL))
        } else if name_is(&self.name, "atom?") {
            Ok(single_inst(crate::cell::Inst::ATOM))
        } else if name_is(&self.name, "+") {
            Ok(single_inst(crate::cell::Inst::ADD))
        } else if name_is(&self.name, "-") {
            Ok(single_inst(crate::cell::Inst::SUB))
        } else if name_is(&self.name, "*") {
            Ok(single_inst(crate::cell::Inst::MUL))
        } else if name_is(&self.name, "/") {
            Ok(single_inst(crate::cell::Inst::DIV))
        } else if name_is(&self.name, "%") {
            Ok(single_inst(crate::cell::Inst::MOD))
        } else if name_is(&self.name, "=") {
            Ok(single_inst(crate::cell::Inst::EQ))
        } else if name_is(&self.name, ">") {
            Ok(single_inst(crate::cell::Inst::GT))
        } else if name_is(&self.name, ">=") {
            Ok(single_inst(crate::cell::Inst::GTE))
        } else if name_is(&self.name, "<") {
            Ok(single_inst(crate::cell::Inst::LT))
        } else if name_is(&self.name, "<=") {
            Ok(single_inst(crate::cell::Inst::LTE))
        } else {
            match state.lookup(&self.name) {
                Some(coord) => Ok(load_var_code(coord.0, coord.1)),
                None => Err(CompileError::UnboundIdentifier(self.name.clone())),
            }
        }
    }
}

impl NumNode {
    /// Compiles this numeric constant: exactly a load-constant instruction
    /// followed by one literal payload carrying the exact value, tagged with
    /// its numeric kind.
    pub fn compile(&self, state: &SymTable) -> (r: CompileResult)
        ensures
            result_view(r) == Ok::<Seq<CellV>, CompileErrV>(
                seq![CellV::Inst(crate::cell::Inst::LDC), CellV::Atom(num_atom(*self))],
            ),
    {
        let payload = match self {
            NumNode::IntConst(node) => Atom::SInt(node.value),
            NumNode::UIntConst(node) => Atom::UInt(node.value),
            NumNode::FloatConst(node) => Atom::Float(node.bits),
        };
        let mut out: Vec<Cell> = Vec::new();
        out.push(Cell::Inst(crate::cell::Inst::LDC));
        out.push(Cell::Atom(payload));
        proof {
            assert(cells_view(out@) =~= seq![
                CellV::Inst(crate::cell::Inst::LDC),
                CellV::Atom(num_atom(*self)),
            ]);
        }
        Ok(out)
    }
}

impl BoolNode {
    /// Compiles this boolean constant: truth becomes the canonical integer
    /// literal 1 behind a load-constant, falsity becomes the empty-list
    /// instruction — the deliberate conflation of falsity with the empty
    /// list, preserved for the execution engine's truthiness checks.
    pub fn compile(&self, state: &SymTable) -> (r: CompileResult)
        ensures
            result_view(r) == (if self.value {
                Ok::<Seq<CellV>, CompileErrV>(
                    seq![CellV::Inst(crate::cell::Inst::LDC), CellV::Atom(Atom::SInt(1))],
                )
            } else {
                Ok::<Seq<CellV>, CompileErrV>(seq![CellV::Inst(crate::cell::Inst::NIL)])
            }),
    {
        if self.value {
            let mut out: Vec<Cell> = Vec::new();
            out.push(Cell::Inst(crate::cell::Inst::LDC));
            out.push(Cell::Atom(Atom::SInt(1)));
            proof {
                assert(cells_view(out@) =~= seq![
                    CellV::Inst(crate::cell::Inst::LDC),
                    CellV::Atom(Atom::SInt(1)),
                ]);
            }
            Ok(out)
        } else {
            Ok(single_inst(crate::cell::Inst::NIL))
        }
    }
}

impl CharNode {
    /// Compiles this character constant: a load-constant instruction and the
    /// character payload.
    pub fn compile(&self, state: &SymTable) -> (r: CompileResult)
        ensures
            result_view(r) == Ok::<Seq<CellV>, CompileErrV>(
                seq![CellV::Inst(crate::cell::Inst::LDC), CellV::Atom(Atom::Char(self.value))],
            ),
    {
        let mut out: Vec<Cell> = Vec::new();
        out.push(Cell::Inst(crate::cell::Inst::LDC));
        out.push(Cell::Atom(Atom::Char(self.value)));
        proof {
            assert(cells_view(out@) =~= seq![
                CellV::Inst(crate::cell::Inst::LDC),
                CellV::Atom(Atom::Char(self.value)),
            ]);
        }
        Ok(out)
    }
}

impl StringNode {
    /// Compiles this string constant: one literal list of its characters in
    /// source order, each wrapped as a character atom; the empty string
    /// becomes the empty list.
    pub fn compile(&self, state: &SymTable) -> (r: CompileResult)
        ensures
            result_view(r) == Ok::<Seq<CellV>, CompileErrV>(
                seq![CellV::List(string_chars(self.value@))],
            ),
    {
        let n = self.value.as_str().unicode_len();
        let mut elems: Vec<Cell> = Vec::new();
        let mut i: usize = 0;
        while i < n
            invariant
                n == self.value@.len(),
                i <= n,
                cells_view(elems@) == string_chars(self.value@).take(i as int),
            decreases n - i,
        {
            let c = self.value.as_str().get_char(i);
            let ghost e0 = elems@;
            elems.push(Cell::Atom(Atom::Char(c)));
            proof {
                assert(string_chars(self.value@).len() == self.value@.len());
                assert(cells_view(e0).len() == e0.len());
                assert(cells_view(e0) == string_chars(self.value@).take(i as int));
                assert(e0.len() == i as int);
                assert(elems@ == e0.push(Cell::Atom(Atom::Char(c))));
                assert forall|j: int| 0 <= j < i + 1 implies cells_view(elems@)[j]
                    == string_chars(self.value@).take(i + 1)[j] by {
                    if j < i {
                        assert(elems@[j] == e0[j]);
                        assert(cells_view(e0)[j] == string_chars(self.value@).take(i as int)[j]);
                    } else {
                        assert(elems@[j] == Cell::Atom(Atom::Char(c)));
                    }
                }
                assert(cells_view(elems@) =~= string_chars(self.value@).take(i + 1));
            }
            i = i + 1;
        }
        proof {
            assert(string_chars(self.value@).len() == self.value@.len());
            assert(string_chars(self.value@).take(n as int) =~= string_chars(self.value@));
        }
        let lst = Cell::List(elems);
        let ghost lv = cell_view(lst);
        proof {
            lemma_cells_view_upto_full(lst->List_0@);
            assert(lv == CellV::List(string_chars(self.value@)));
        }
        let mut out: Vec<Cell> = Vec::new();
        out.push(lst);
        proof {
            assert(cells_view(out@) =~= seq![CellV::List(string_chars(self.value@))]);
        }
        Ok(out)
    }
}


/// Compiles each tree of a sequence in order, against one shared scope
/// chain, and concatenates the code; the first failure aborts the whole
/// sequence with no partial output.
pub fn compile_exprs(exprs: &Vec<ExprNode>, state: &SymTable) -> (r: CompileResult)
    requires
        wf_exprs(exprs@),
    ensures
        result_view(r) == cat_results(sc_results(exprs@, state@)),
    decreases exprs,
{
    let ghost rs = sc_results(exprs@, state@);
    proof {
        lemma_sc_results(exprs@, state@);
    }
    let mut out: Vec<Cell> = Vec::new();
    let mut i: usize = 0;
    proof {
        assert(rs.take(0) =~= Seq::<CodeResult>::empty());
        assert(cells_view(out@) =~= Seq::<CellV>::empty());
    }
    while i < exprs.len()
        invariant
            wf_exprs(exprs@),
            rs == sc_results(exprs@, state@),
            rs.len() == exprs@.len(),
            forall|j: int| 0 <= j < exprs@.len() ==> rs[j] == sc_expr(exprs@[j], state@),
            i <= exprs@.len(),
            cat_results(rs.take(i as int)) == Ok::<Seq<CellV>, CompileErrV>(cells_view(out@)),
        decreases exprs@.len() - i,
    {
        proof {
            lemma_wf_exprs_index(exprs@, i as int);
            assert(rs.take(i + 1).drop_last() =~= rs.take(i as int));
            assert(rs.take(i + 1).last() == rs[i as int]);
        }
        match exprs[i].compile(state) {
            Err(err) => {
                proof {
                    assert(cat_results(rs.take(i + 1)) == Err::<Seq<CellV>, CompileErrV>(err@));
                    lemma_cat_err_extend(rs, i + 1);
                    assert(rs.take(rs.len() as int) =~= rs);
                }
                return Err(err);
            },
            Ok(mut code) => {
                let ghost o0 = out@;
                let ghost c0 = code@;
                out.append(&mut code);
                proof {
                    assert(out@ == o0 + c0);
                    assert(cells_view(o0 + c0) =~= cells_view(o0) + cells_view(c0));
                    assert(cat_results(rs.take(i + 1)) == Ok::<Seq<CellV>, CompileErrV>(
                        cells_view(out@),
                    ));
                }
            },
        }
        i = i + 1;
    }
    proof {
        assert(rs.take(rs.len() as int) =~= rs);
    }
    Ok(out)
}

impl RootNode {
    /// Compiles a whole program: the code of each top-level expression in
    /// source order, concatenated, all sharing one scope chain; the first
    /// failing expression aborts the whole compilation.
    pub fn compile(&self, state: &SymTable) -> (r: CompileResult)
        requires
            wf_exprs(self.exprs@),
        ensures
            result_view(r) == cat_results(sc_results(self.exprs@, state@)),
        decreases self,
    {
        compile_exprs(&self.exprs, state)
    }
}

impl ListNode {
    /// Compiles a list literal: each element compiles independently in
    /// source order and the results are packaged as one literal list operand
    /// — list literals are data, not executable sequences.
    pub fn compile(&self, state: &SymTable) -> (r: CompileResult)
        requires
            wf_exprs(self.elements@),
        ensures
            result_view(r) == (match cat_results(sc_results(self.elements@, state@)) {
                Err(e) => Err::<Seq<CellV>, CompileErrV>(e),
                Ok(c) => Ok(seq![CellV::List(c)]),
            }),
        decreases self,
    {
        match compile_exprs(&self.elements, state) {
            Err(e) => Err(e),
            Ok(code) => {
                let ghost cv = cells_view(code@);
                let lst = Cell::List(code);
                let ghost lv = cell_view(lst);
                proof {
                    lemma_cells_view_upto_full(lst->List_0@);
                    assert(lv == CellV::List(cv));
                }
                let mut out: Vec<Cell> = Vec::new();
                out.push(lst);
                proof {
                    assert(cells_view(out@) =~= seq![CellV::List(cv)]);
                }
                Ok(out)
            },
        }
    }
}

impl ExprNode {
    /// Compiles any tree against the given scope chain, dispatching on the
    /// node variant; returns exactly the code list the compilation rule for
    /// that variant gives, or its structured failure.
    pub fn compile(&self, state: &SymTable) -> (r: CompileResult)
        requires
            wf_expr(*self),
        ensures
            result_view(r) == sc_expr(*self, state@),
        decreases self,
    {
        match self {
            ExprNode::Root(node) => node.compile(state),
            ExprNode::SExpr(node) => node.compile(state),
            ExprNode::Name(node) => node.compile(state),
            ExprNode::ListConst(node) => node.compile(state),
            ExprNode::NumConst(node) => node.compile(state),
            ExprNode::BoolConst(node) => node.compile(state),
            ExprNode::CharConst(node) => node.compile(state),
            ExprNode::StringConst(node) => node.compile(state),
        }
    }

    /// Compiles a standalone fragment against a fresh scope chain of one
    /// empty frame.
    pub fn compile_fresh(&self) -> (r: CompileResult)
        requires
            wf_expr(*self),
        ensures
            result_view(r) == sc_expr(*self, seq![Seq::<Seq<char>>::empty()]),
    {
        let state = SymTable::new();
        self.compile(&state)
    }
}


impl SExprNode {
    /// Compiles an S-expression; the operator name selects the rule.
    ///
    /// `if` demands exactly three operands (condition, consequent,
    /// alternative) and builds: the condition's code, a select instruction,
    /// then the two branch bodies as nested code lists, consequent first,
    /// each terminated by a join.  `lambda` demands a parameter-list
    /// application whose operator and operands are all identifiers plus an
    /// application body; it forks the scope chain, binds the parameter names
    /// in source order into the fresh frame, compiles the body against the
    /// fork, and wraps the body, terminated by a return, in a
    /// closure-construction instruction.  Any other operator is an
    /// application, compiled as a right-to-left fold: the rightmost
    /// operand's code, then, per earlier operand, that operand's code
    /// followed by one copy of the operator's code.
    pub fn compile(&self, state: &SymTable) -> (r: CompileResult)
        requires
            wf_sexpr(*self),
        ensures
            result_view(r) == sc_sexpr(*self, state@),
        decreases self,
    {
        if name_is(&self.operator.name, "if") {
            if self.operands.len() == 3 {
                proof {
                    lemma_wf_exprs_index(self.operands@, 0);
                    lemma_wf_exprs_index(self.operands@, 1);
                    lemma_wf_exprs_index(self.operands@, 2);
                }
                let cond = match self.operands[0].compile(state) {
                    Err(e) => {
                        return Err(e);
                    },
                    Ok(c) => c,
                };
                let ghost condv = cells_view(cond@);
                let fcode = match self.operands[2].compile(state) {
                    Err(e) => {
                        return Err(e);
                    },
                    Ok(c) => c,
                };
                let ghost fv = cells_view(fcode@);
                let tcode = match self.operands[1].compile(state) {
                    Err(e) => {
                        return Err(e);
                    },
                    Ok(c) => c,
                };
                let ghost tv = cells_view(tcode@);
                let mut tl = tcode;
                let ghost tl0 = tl@;
                tl.push(Cell::Inst(crate::cell::Inst::JOIN));
                let tcell = Cell::List(tl);
                let ghost tcv = cell_view(tcell);
                proof {
                    lemma_cells_view_upto_full(tcell->List_0@);
                    assert(cells_view(tl0.push(Cell::Inst(crate::cell::Inst::JOIN))) =~= tv.push(
                        CellV::Inst(crate::cell::Inst::JOIN),
                    ));
                    assert(tcv == CellV::List(tv.push(CellV::Inst(crate::cell::Inst::JOIN))));
                }
                let mut fl = fcode;
                let ghost fl0 = fl@;
                fl.push(Cell::Inst(crate::cell::Inst::JOIN));
                let fcell = Cell::List(fl);
                let ghost fcv = cell_view(fcell);
                proof {
                    lemma_cells_view_upto_full(fcell->List_0@);
                    assert(cells_view(fl0.push(Cell::Inst(crate::cell::Inst::JOIN))) =~= fv.push(
                        CellV::Inst(crate::cell::Inst::JOIN),
                    ));
                    assert(fcv == CellV::List(fv.push(CellV::Inst(crate::cell::Inst::JOIN))));
                }
                let mut out = cond;
                out.push(Cell::Inst(crate::cell::Inst::SEL));
                out.push(tcell);
                out.push(fcell);
                proof {
                    assert(cells_view(out@) =~= condv + seq![
                        CellV::Inst(crate::cell::Inst::SEL),
                        tcv,
                        fcv,
                    ]);
                }
                Ok(out)
            } else {
                Err(CompileError::MalformedIf)
            }
        } else if name_is(&self.operator.name, "lambda") {
            if self.operands.len() == 2 {
                let params_ok = match &self.operands[0] {
                    ExprNode::SExpr(_) => true,
                    _ => false,
                };
                let body_ok = match &self.operands[1] {
                    ExprNode::SExpr(_) => true,
                    _ => false,
                };
                if params_ok && body_ok {
                    let params = match &self.operands[0] {
                        ExprNode::SExpr(p) => p,
                        _ => {
                            return Err(CompileError::MalformedLambda);
                        },
                    };
                    let ghost names = param_names(*params);
                    proof {
                        assert(names.len() == 1 + params.operands@.len());
                    }
                    let mut sym = state.fork();
                    let _ = sym.bind(params.operator.name.clone());
                    proof {
                        assert(names.take(1) =~= seq![params.operator.name@]);
                        assert(sym@ =~~= state@.push(names.take(1)));
                    }
                    let mut j: usize = 0;
                    while j < params.operands.len()
                        invariant
                            self.operator.name@ != "if"@,
                            self.operator.name@ == "lambda"@,
                            self.operands@.len() == 2,
                            self.operands@[0] == ExprNode::SExpr(*params),
                            self.operands@[1] is SExpr,
                            names == param_names(*params),
                            names.len() == 1 + params.operands@.len(),
                            j <= params.operands@.len(),
                            forall|k: int| 0 <= k < j ==> params.operands@[k] is Name,
                            sym.wf(),
                            sym@ == state@.push(names.take(j + 1)),
                        decreases params.operands@.len() - j,
                    {
                        match &params.operands[j] {
                            ExprNode::Name(node) => {
                                let _ = sym.bind(node.name.clone());
                                proof {
                                    assert(names[j + 1] == node.name@);
                                    assert(names.take(j + 2) =~= names.take(j + 1).push(
                                        node.name@,
                                    ));
                                    assert(sym@ =~~= state@.push(names.take(j + 2)));
                                }
                            },
                            _ => {
                                proof {
                                    assert(!all_names(params.operands@));
                                }
                                return Err(CompileError::MalformedLambda);
                            },
                        }
                        j = j + 1;
                    }
                    proof {
                        assert(all_names(params.operands@));
                        assert(names.take(params.operands@.len() as int + 1) =~= names);
                        assert(sym@ == state@.push(names));
                        assert(self.operands@[0]->SExpr_0 == *params);
                        assert(wf_expr(self.operands@[1]));
                    }
                    match self.operands[1].compile(&sym) {
                        Err(e) => Err(e),
                        Ok(body) => {
                            let ghost bv = cells_view(body@);
                            let mut bl = body;
                            let ghost bl0 = bl@;
                            bl.push(Cell::Inst(crate::cell::Inst::RET));
                            let bcell = Cell::List(bl);
                            let ghost bcv = cell_view(bcell);
                            proof {
                                lemma_cells_view_upto_full(bcell->List_0@);
                                assert(cells_view(bl0.push(Cell::Inst(crate::cell::Inst::RET)))
                                    =~= bv.push(CellV::Inst(crate::cell::Inst::RET)));
                                assert(bcv == CellV::List(
                                    bv.push(CellV::Inst(crate::cell::Inst::RET)),
                                ));
                            }
                            let mut out: Vec<Cell> = Vec::new();
                            out.push(Cell::Inst(crate::cell::Inst::LDF));
                            out.push(bcell);
                            proof {
                                assert(cells_view(out@) =~= seq![
                                    CellV::Inst(crate::cell::Inst::LDF),
                                    bcv,
                                ]);
                            }
                            Ok(out)
                        },
                    }
                } else {
                    Err(CompileError::MalformedLambda)
                }
            } else {
                Err(CompileError::MalformedLambda)
            }
        } else {
            let k = self.operands.len();
            let ghost opc = sc_name(self.operator.name@, state@);
            if k == 1 {
                proof {
                    lemma_wf_exprs_index(self.operands@, 0);
                }
                let mut out = match self.operands[0].compile(state) {
                    Err(e) => {
                        return Err(e);
                    },
                    Ok(c) => c,
                };
                let mut ocode = match self.operator.compile(state) {
                    Err(e) => {
                        return Err(e);
                    },
                    Ok(c) => c,
                };
                let ghost o0 = out@;
                let ghost c0 = ocode@;
                out.append(&mut ocode);
                proof {
                    assert(out@ == o0 + c0);
                    assert(cells_view(o0 + c0) =~= cells_view(o0) + cells_view(c0));
                }
                Ok(out)
            } else {
                let ghost rs = sc_results(self.operands@, state@);
                proof {
                    lemma_sc_results(self.operands@, state@);
                    lemma_wf_exprs_index(self.operands@, k - 1);
                }
                let mut out = match self.operands[k - 1].compile(state) {
                    Err(e) => {
                        proof {
                            assert(fold_rev(rs, opc, k - 1) == Err::<Seq<CellV>, CompileErrV>(e@));
                            lemma_fold_rev_err(rs, opc, k - 1, 0);
                        }
                        return Err(e);
                    },
                    Ok(c) => c,
                };
                proof {
                    assert(fold_rev(rs, opc, k - 1) == Ok::<Seq<CellV>, CompileErrV>(
                        cells_view(out@),
                    ));
                }
                let mut i: usize = k - 1;
                while i > 0
                    invariant
                        self.operator.name@ != "if"@,
                        self.operator.name@ != "lambda"@,
                        self.operands@.len() == k,
                        k >= 2,
                        wf_exprs(self.operands@),
                        rs == sc_results(self.operands@, state@),
                        opc == sc_name(self.operator.name@, state@),
                        rs.len() == k,
                        forall|j: int| 0 <= j < k ==> rs[j] == sc_expr(self.operands@[j], state@),
                        0 <= i <= k - 1,
                        fold_rev(rs, opc, i as int) == Ok::<Seq<CellV>, CompileErrV>(
                            cells_view(out@),
                        ),
                    decreases i,
                {
                    i = i - 1;
                    let ghost acc0 = cells_view(out@);
                    proof {
                        lemma_wf_exprs_index(self.operands@, i as int);
                        assert(fold_rev(rs, opc, i + 1) == Ok::<Seq<CellV>, CompileErrV>(acc0));
                    }
                    match self.operands[i].compile(state) {
                        Err(e) => {
                            proof {
                                assert(rs[i as int] == Err::<Seq<CellV>, CompileErrV>(e@));
                                assert(fold_rev(rs, opc, i as int) == Err::<
                                    Seq<CellV>,
                                    CompileErrV,
                                >(e@));
                                lemma_fold_rev_err(rs, opc, i as int, 0);
                            }
                            return Err(e);
                        },
                        Ok(mut c) => {
                            let ghost o0 = out@;
                            let ghost c0 = c@;
                            proof {
                                assert(rs[i as int] == Ok::<Seq<CellV>, CompileErrV>(
                                    cells_view(c0),
                                ));
                            }
                            out.append(&mut c);
                            proof {
                                assert(out@ == o0 + c0);
                                assert(cells_view(o0 + c0) =~= cells_view(o0) + cells_view(c0));
                            }
                        },
                    }
                    let ghost acc1 = cells_view(out@);
                    proof {
                        assert(rs[i as int] is Ok);
                        assert(acc1 == acc0 + rs[i as int]->Ok_0);
                    }
                    match self.operator.compile(state) {
                        Err(e) => {
                            proof {
                                assert(opc == Err::<Seq<CellV>, CompileErrV>(e@));
                                assert(fold_rev(rs, opc, i as int) == Err::<
                                    Seq<CellV>,
                                    CompileErrV,
                                >(e@));
                                lemma_fold_rev_err(rs, opc, i as int, 0);
                            }
                            return Err(e);
                        },
                        Ok(mut ocode) => {
                            let ghost o1 = out@;
                            let ghost oc0 = ocode@;
                            proof {
                                assert(opc == Ok::<Seq<CellV>, CompileErrV>(cells_view(oc0)));
                            }
                            out.append(&mut ocode);
                            proof {
                                assert(out@ == o1 + oc0);
                                assert(cells_view(o1 + oc0) =~= cells_view(o1) + cells_view(oc0));
                                assert(fold_rev(rs, opc, i as int) == Ok::<
                                    Seq<CellV>,
                                    CompileErrV,
                                >(acc0 + rs[i as int]->Ok_0 + opc->Ok_0));
                                assert(cells_view(out@) == acc0 + rs[i as int]->Ok_0
                                    + opc->Ok_0);
                            }
                        },
                    }
                }
                Ok(out)
            }
        }
    }
}


/// An identifier outside the primitive set and free in every enclosing scope
/// frame compiles to an unbound-identifier failure naming it exactly; no
/// code is emitted for it.
pub proof fn lemma_unbound_identifier(n: Seq<char>, st: Seq<Seq<Seq<char>>>)
    requires
        prim_inst(n) is None,
        chain_lookup(st, n) is None,
    ensures
        sc_name(n, st) == Err::<Seq<CellV>, CompileErrV>(CompileErrV::UnboundIdentifier(n)),
{
}

/// A multi-operand application compiles as a right-to-left fold, not left to
/// right: for an operator whose code is `oc` and three operands whose code
/// lists are `ca`, `cb` and `cc`, the emitted code is `cc`, then `cb`, then
/// one copy of `oc`, then `ca`, then another copy of `oc`.
pub proof fn lemma_reverse_fold_three(
    sn: SExprNode,
    st: Seq<Seq<Seq<char>>>,
    ca: Seq<CellV>,
    cb: Seq<CellV>,
    cc: Seq<CellV>,
    oc: Seq<CellV>,
)
    requires
        sn.operator.name@ != "if"@,
        sn.operator.name@ != "lambda"@,
        sn.operands@.len() == 3,
        sc_expr(sn.operands@[0], st) == Ok::<Seq<CellV>, CompileErrV>(ca),
        sc_expr(sn.operands@[1], st) == Ok::<Seq<CellV>, CompileErrV>(cb),
        sc_expr(sn.operands@[2], st) == Ok::<Seq<CellV>, CompileErrV>(cc),
        sc_name(sn.operator.name@, st) == Ok::<Seq<CellV>, CompileErrV>(oc),
    ensures
        sc_sexpr(sn, st) == Ok::<Seq<CellV>, CompileErrV>(cc + cb + oc + ca + oc),
{
    let rs = sc_results(sn.operands@, st);
    let opc = sc_name(sn.operator.name@, st);
    lemma_sc_results(sn.operands@, st);
    assert(fold_rev(rs, opc, 2) == Ok::<Seq<CellV>, CompileErrV>(cc));
    assert(fold_rev(rs, opc, 1) == Ok::<Seq<CellV>, CompileErrV>(cc + cb + oc));
    assert(fold_rev(rs, opc, 0) == Ok::<Seq<CellV>, CompileErrV>(cc + cb + oc + ca + oc));
}

/// A conditional demands exactly three operands: with any other arity the
/// whole form fails as a malformed conditional and emits nothing.
pub proof fn lemma_if_arity(sn: SExprNode, st: Seq<Seq<Seq<char>>>)
    requires
        sn.operator.name@ == "if"@,
        sn.operands@.len() != 3,
    ensures
        sc_sexpr(sn, st) == Err::<Seq<CellV>, CompileErrV>(CompileErrV::MalformedIf),
{
}



} // verus!
