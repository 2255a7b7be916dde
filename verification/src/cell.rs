//! The instruction vocabulary and the code-list type the generator emits.
//!
//! A compiled program is a flat, ordered sequence of [`Cell`]s.  A cell is an
//! instruction tag, a literal atom operand, or a nested list.  A nested list
//! is one of two things: a sub-program — the operand of the
//! structured-control instructions `SEL` (a branch body) and `LDF` (a
//! function body), the only instructions that carry code as data — or a
//! literal list operand: the character list a string constant lowers to, the
//! packaged contents of a list literal, and the two-element `(frame, slot)`
//! coordinate list that follows the load-variable instruction `LD`, which is
//! the operand shape the execution engine pops for it.  This vocabulary is
//! the wire contract with the external execution engine: tag names and
//! operand shapes must not change without it.
//!
//! Floating-point payloads are carried as their raw IEEE-754 bit pattern in a
//! `u64`, so that the compiler moves them through untouched without ever
//! computing on them; the boundary that parses source text converts a float
//! to its bits before building the tree.

use vstd::prelude::*;

verus! {

broadcast use vstd::std_specs::vec::group_vec_axioms;

/// An instruction tag of the abstract machine.
///
/// `LDC` loads the constant operand that follows it; `LD` loads the variable
/// whose `(frame, slot)` coordinate follows it as a nested list of two
/// unsigned atoms; `SEL`/`JOIN` are the conditional branch and its
/// terminator; `CONS`/`CAR`/`CDR`/`NIL`/`NULL`/`ATOM` are the list
/// primitives; `ADD` through `MOD` the arithmetic and `EQ` through `LTE` the
/// comparison instructions; `LDF`/`AP`/`RAP`/`DUM` construct and apply
/// closures, whose compiled bodies end with the body terminator `RET`.
#[derive(Clone, Copy, PartialEq, Eq, Structural, Debug)]
pub enum Inst {
    LDC,
    LD,
    SEL,
    JOIN,
    CONS,
    CAR,
    CDR,
    NIL,
    NULL,
    ATOM,
    ADD,
    SUB,
    MUL,
    DIV,
    MOD,
    EQ,
    GT,
    GTE,
    LT,
    LTE,
    LDF,
    AP,
    RAP,
    DUM,
    RET,
}

/// A literal operand: an unsigned integer, a signed integer, a character, or
/// a floating-point number carried as its raw bit pattern.
#[derive(Clone, Copy, PartialEq, Eq, Structural, Debug)]
pub enum Atom {
    UInt(usize),
    SInt(isize),
    Char(char),
    Float(u64),
}

/// One element of a code list: an instruction, a literal atom, or a nested
/// list — a sub-program under `SEL` or `LDF`, or a literal list operand (a
/// string's characters, a list literal's contents, a load-variable
/// coordinate).
#[derive(PartialEq, Debug)]
pub enum Cell {
    Inst(Inst),
    Atom(Atom),
    List(Vec<Cell>),
}

/// The mathematical shape of a [`Cell`], with nested lists as sequences.
pub enum CellV {
    Inst(Inst),
    Atom(Atom),
    List(Seq<CellV>),
}

/// The mathematical shape of one cell.
pub open spec fn cell_view(c: Cell) -> CellV
    decreases c,
{
    match c {
        Cell::Inst(i) => CellV::Inst(i),
        Cell::Atom(a) => CellV::Atom(a),
        Cell::List(v) => CellV::List(cells_view_upto(v@, v@.len() as int)),
    }
}

/// The views of the first `n` cells of a code list, built from the left.
pub open spec fn cells_view_upto(s: Seq<Cell>, n: int) -> Seq<CellV>
    decreases s, n,
{
    if n <= 0 || n > s.len() {
        Seq::empty()
    } else {
        cells_view_upto(s, n - 1).push(cell_view(s[n - 1]))
    }
}

/// The views of a code list's cells, in order.
pub open spec fn cells_view(s: Seq<Cell>) -> Seq<CellV> {
    Seq::new(s.len(), |i: int| cell_view(s[i]))
}

/// `cells_view_upto` at the full length agrees with the direct elementwise
/// view of the whole list.
pub proof fn lemma_cells_view_upto_full(s: Seq<Cell>)
    ensures
        cells_view_upto(s, s.len() as int) == cells_view(s),
{
    lemma_cells_view_upto_take(s, s.len() as int);
    assert(cells_view_upto(s, s.len() as int) =~= cells_view(s));
}

proof fn lemma_cells_view_upto_take(s: Seq<Cell>, n: int)
    requires
        0 <= n <= s.len(),
    ensures
        cells_view_upto(s, n) == cells_view(s).take(n),
    decreases n,
{
    if n == 0 {
        assert(cells_view_upto(s, 0) =~= cells_view(s).take(0));
    } else {
        lemma_cells_view_upto_take(s, n - 1);
        assert(cells_view_upto(s, n) =~= cells_view(s).take(n));
    }
}

impl View for Cell {
    type V = CellV;

    open spec fn view(&self) -> CellV {
        cell_view(*self)
    }
}

/// A structured compilation failure.  `MalformedIf` and `MalformedLambda`
/// report a special form with the wrong operand arity or shape;
/// `UnboundIdentifier` reports a name with no primitive meaning and no
/// binding in any enclosing scope frame, and carries that name.
#[derive(Clone, PartialEq, Debug)]
pub enum CompileError {
    MalformedIf,
    MalformedLambda,
    UnboundIdentifier(String),
}

/// The mathematical shape of a [`CompileError`].
pub enum CompileErrV {
    MalformedIf,
    MalformedLambda,
    UnboundIdentifier(Seq<char>),
}

impl View for CompileError {
    type V = CompileErrV;

    open spec fn view(&self) -> CompileErrV {
        match self {
            CompileError::MalformedIf => CompileErrV::MalformedIf,
            CompileError::MalformedLambda => CompileErrV::MalformedLambda,
            CompileError::UnboundIdentifier(n) => CompileErrV::UnboundIdentifier(n@),
        }
    }
}

/// A compilation yields either a whole code list or a single structured
/// failure — never partial output.
pub type CompileResult = Result<Vec<Cell>, CompileError>;

/// The mathematical shape of a [`CompileResult`].
pub open spec fn result_view(r: CompileResult) -> Result<Seq<CellV>, CompileErrV> {
    match r {
        Ok(code) => Ok(cells_view(code@)),
        Err(e) => Err(e@),
    }
}

/// The human-readable rendering of a compile error, in the shape
/// the error channel promises: the failure kind and, for an unbound
/// identifier, the offending name.
pub open spec fn error_message(e: CompileErrV) -> Seq<char> {
    match e {
        CompileErrV::MalformedIf => "[error]: malformed if expression"@,
        CompileErrV::MalformedLambda => "[error]: malformed lambda expression"@,
        CompileErrV::UnboundIdentifier(n) => "[error] Unknown identifier `"@ + n + "`"@,
    }
}

impl CompileError {
    /// Renders the failure as a descriptive message.
    pub fn message(&self) -> (r: String)
        ensures
            r@ == error_message(self@),
    {
        match self {
            CompileError::MalformedIf => {
                let r = String::new();
                r.concat("[error]: malformed if expression")
            },
            CompileError::MalformedLambda => {
                let r = String::new();
                r.concat("[error]: malformed lambda expression")
            },
            CompileError::UnboundIdentifier(n) => {
                let mut r = String::new();
                r.append("[error] Unknown identifier `");
                r.append(n.as_str());
                r.append("`");
                proof {
                    assert(r@ =~= error_message(self@));
                }
                r
            },
        }
    }
}

} // verus!
