use seax_scheme::ast::{
    BoolNode, CharNode, ExprNode, IntNode, ListNode, NameNode, NumNode, RootNode, SExprNode,
    StringNode, UIntNode, FloatNode,
};
use seax_scheme::cell::{Atom, Cell, CompileError, Inst};
use seax_scheme::scope::{Scope, SymTable};

fn num(v: isize) -> ExprNode {
    ExprNode::NumConst(NumNode::IntConst(IntNode { value: v }))
}

fn name(n: &str) -> ExprNode {
    ExprNode::Name(NameNode::new(n.to_string()))
}

fn sexpr(op: &str, operands: Vec<ExprNode>) -> ExprNode {
    ExprNode::SExpr(SExprNode {
        operator: NameNode::new(op.to_string()),
        operands,
    })
}

fn ldc_int(v: isize) -> Vec<Cell> {
    vec![Cell::Inst(Inst::LDC), Cell::Atom(Atom::SInt(v))]
}

#[test]
fn int_constant_compiles_to_ldc_and_payload() {
    let e = num(42);
    let st = SymTable::new();
    assert_eq!(e.compile(&st).unwrap(), ldc_int(42));
}

#[test]
fn uint_constant_keeps_kind_and_value() {
    let e = ExprNode::NumConst(NumNode::UIntConst(UIntNode { value: 7 }));
    let st = SymTable::new();
    assert_eq!(
        e.compile(&st).unwrap(),
        vec![Cell::Inst(Inst::LDC), Cell::Atom(Atom::UInt(7))]
    );
}

#[test]
fn float_constant_carries_its_bits() {
    let bits = 3.5f64.to_bits();
    let e = ExprNode::NumConst(NumNode::FloatConst(FloatNode { bits }));
    let st = SymTable::new();
    assert_eq!(
        e.compile(&st).unwrap(),
        vec![Cell::Inst(Inst::LDC), Cell::Atom(Atom::Float(bits))]
    );
}

#[test]
fn bool_true_is_integer_one() {
    let e = ExprNode::BoolConst(BoolNode { value: true });
    let st = SymTable::new();
    assert_eq!(e.compile(&st).unwrap(), ldc_int(1));
}

#[test]
fn bool_false_is_the_empty_list() {
    let e = ExprNode::BoolConst(BoolNode { value: false });
    let st = SymTable::new();
    assert_eq!(e.compile(&st).unwrap(), vec![Cell::Inst(Inst::NIL)]);
}

#[test]
fn char_constant_compiles_to_ldc_and_char() {
    let e = ExprNode::CharConst(CharNode { value: 'q' });
    let st = SymTable::new();
    assert_eq!(
        e.compile(&st).unwrap(),
        vec![Cell::Inst(Inst::LDC), Cell::Atom(Atom::Char('q'))]
    );
}

#[test]
fn empty_string_is_an_empty_list() {
    let e = ExprNode::StringConst(StringNode {
        value: String::new(),
    });
    let st = SymTable::new();
    assert_eq!(e.compile(&st).unwrap(), vec![Cell::List(vec![])]);
}

#[test]
fn two_char_string_is_a_list_of_two_chars_in_order() {
    let e = ExprNode::StringConst(StringNode {
        value: "ab".to_string(),
    });
    let st = SymTable::new();
    assert_eq!(
        e.compile(&st).unwrap(),
        vec![Cell::List(vec![
            Cell::Atom(Atom::Char('a')),
            Cell::Atom(Atom::Char('b')),
        ])]
    );
}

#[test]
fn if_true_one_two_selects_consequent_first() {
    let e = sexpr(
        "if",
        vec![ExprNode::BoolConst(BoolNode { value: true }), num(1), num(2)],
    );
    let st = SymTable::new();
    let mut expected = ldc_int(1);
    expected.push(Cell::Inst(Inst::SEL));
    let mut tcode = ldc_int(1);
    tcode.push(Cell::Inst(Inst::JOIN));
    let mut fcode = ldc_int(2);
    fcode.push(Cell::Inst(Inst::JOIN));
    expected.push(Cell::List(tcode));
    expected.push(Cell::List(fcode));
    assert_eq!(e.compile(&st).unwrap(), expected);
}

#[test]
fn if_with_zero_operands_is_malformed() {
    let e = sexpr("if", vec![]);
    let st = SymTable::new();
    assert_eq!(e.compile(&st).unwrap_err(), CompileError::MalformedIf);
}

#[test]
fn lambda_with_zero_operands_is_malformed() {
    let e = sexpr("lambda", vec![]);
    let st = SymTable::new();
    assert_eq!(e.compile(&st).unwrap_err(), CompileError::MalformedLambda);
}

#[test]
fn single_parameter_lambda_compiles() {
    // (lambda (x) (+ x 1)): the parameter list is an S-expression with an
    // operator-position name and no operand-position names.
    let params = sexpr("x", vec![]);
    let body = sexpr("+", vec![name("x"), num(1)]);
    let e = sexpr("lambda", vec![params, body]);
    let st = SymTable::new();
    // body (+ x 1): rightmost operand 1 first, then x at (0, 0), then ADD.
    let mut body_code = ldc_int(1);
    body_code.push(Cell::Inst(Inst::LD));
    body_code.push(Cell::List(vec![
        Cell::Atom(Atom::UInt(0)),
        Cell::Atom(Atom::UInt(0)),
    ]));
    body_code.push(Cell::Inst(Inst::ADD));
    body_code.push(Cell::Inst(Inst::RET));
    assert_eq!(
        e.compile(&st).unwrap(),
        vec![Cell::Inst(Inst::LDF), Cell::List(body_code)]
    );
}

#[test]
fn if_with_two_operands_is_malformed() {
    let e = sexpr("if", vec![name("a"), name("b")]);
    let st = SymTable::new();
    assert_eq!(e.compile(&st).unwrap_err(), CompileError::MalformedIf);
}

#[test]
fn if_with_four_operands_is_malformed() {
    let e = sexpr("if", vec![name("a"), name("b"), name("c"), name("d")]);
    let st = SymTable::new();
    assert_eq!(e.compile(&st).unwrap_err(), CompileError::MalformedIf);
}

#[test]
fn unbound_identifier_error_names_it_exactly() {
    let e = name("frobnicate");
    let st = SymTable::new();
    assert_eq!(
        e.compile(&st).unwrap_err(),
        CompileError::UnboundIdentifier("frobnicate".to_string())
    );
}

#[test]
fn if_reports_the_alternative_branch_error_before_the_consequent_one() {
    let e = sexpr(
        "if",
        vec![
            ExprNode::BoolConst(BoolNode { value: true }),
            name("bad_true"),
            name("bad_false"),
        ],
    );
    let st = SymTable::new();
    assert_eq!(
        e.compile(&st).unwrap_err(),
        CompileError::UnboundIdentifier("bad_false".to_string())
    );
}

#[test]
fn primitives_compile_to_their_single_instruction() {
    let st = SymTable::new();
    let table = [
        ("cons", Inst::CONS),
        ("car", Inst::CAR),
        ("cdr", Inst::CDR),
        ("nil", Inst::NIL),
        ("nil?", Inst::NULL),
        ("atom?", Inst::ATOM),
        ("+", Inst::ADD),
        ("-", Inst::SUB),
        ("*", Inst::MUL),
        ("/", Inst::DIV),
        ("%", Inst::MOD),
        ("=", Inst::EQ),
        (">", Inst::GT),
        (">=", Inst::GTE),
        ("<", Inst::LT),
        ("<=", Inst::LTE),
    ];
    for (n, inst) in table {
        assert_eq!(name(n).compile(&st).unwrap(), vec![Cell::Inst(inst)]);
    }
}

#[test]
fn reverse_fold_compiles_rightmost_operand_first() {
    let e = sexpr("+", vec![num(1), num(2), num(3)]);
    let st = SymTable::new();
    let mut expected = ldc_int(3);
    expected.extend(ldc_int(2));
    expected.push(Cell::Inst(Inst::ADD));
    expected.extend(ldc_int(1));
    expected.push(Cell::Inst(Inst::ADD));
    assert_eq!(e.compile(&st).unwrap(), expected);
}

#[test]
fn unary_application_is_operand_then_operator() {
    let e = sexpr("car", vec![name("nil")]);
    let st = SymTable::new();
    assert_eq!(
        e.compile(&st).unwrap(),
        vec![Cell::Inst(Inst::NIL), Cell::Inst(Inst::CAR)]
    );
}

#[test]
fn bound_name_compiles_to_a_load_at_its_coordinate() {
    let mut st = SymTable::new();
    let (frame, slot) = st.bind("x".to_string());
    assert_eq!((frame, slot), (0, 0));
    let e = name("x");
    assert_eq!(
        e.compile(&st).unwrap(),
        vec![
            Cell::Inst(Inst::LD),
            Cell::List(vec![
                Cell::Atom(Atom::UInt(0)),
                Cell::Atom(Atom::UInt(0)),
            ]),
        ]
    );
}

#[test]
fn lambda_binds_parameters_and_wraps_the_body_in_a_closure() {
    // (lambda (f x) (+ x f)): f gets slot 0, x slot 1 in the fresh frame.
    let params = sexpr("f", vec![name("x")]);
    let body = sexpr("+", vec![name("x"), name("f")]);
    let e = sexpr("lambda", vec![params, body]);
    let st = SymTable::new();
    let load = |slot: usize| {
        vec![
            Cell::Inst(Inst::LD),
            Cell::List(vec![
                Cell::Atom(Atom::UInt(0)),
                Cell::Atom(Atom::UInt(slot)),
            ]),
        ]
    };
    // body (+ x f): rightmost operand f first, then x, then ADD, then RET.
    let mut body_code = load(0);
    body_code.extend(load(1));
    body_code.push(Cell::Inst(Inst::ADD));
    body_code.push(Cell::Inst(Inst::RET));
    assert_eq!(
        e.compile(&st).unwrap(),
        vec![Cell::Inst(Inst::LDF), Cell::List(body_code)]
    );
}

#[test]
fn lambda_with_one_operand_is_malformed() {
    let e = sexpr("lambda", vec![sexpr("f", vec![name("x")])]);
    let st = SymTable::new();
    assert_eq!(e.compile(&st).unwrap_err(), CompileError::MalformedLambda);
}

#[test]
fn lambda_with_non_name_parameter_is_malformed() {
    let params = sexpr("f", vec![num(3)]);
    let body = sexpr("+", vec![num(1), num(2)]);
    let e = sexpr("lambda", vec![params, body]);
    let st = SymTable::new();
    assert_eq!(e.compile(&st).unwrap_err(), CompileError::MalformedLambda);
}

#[test]
fn lambda_with_non_sexpr_body_is_malformed() {
    let params = sexpr("f", vec![name("x")]);
    let e = sexpr("lambda", vec![params, num(1)]);
    let st = SymTable::new();
    assert_eq!(e.compile(&st).unwrap_err(), CompileError::MalformedLambda);
}

#[test]
fn root_concatenates_top_level_expressions_in_order() {
    let root = RootNode {
        exprs: vec![num(1), ExprNode::BoolConst(BoolNode { value: false })],
    };
    let st = SymTable::new();
    let mut expected = ldc_int(1);
    expected.push(Cell::Inst(Inst::NIL));
    assert_eq!(root.compile(&st).unwrap(), expected);
}

#[test]
fn root_stops_at_the_first_failing_expression() {
    let root = RootNode {
        exprs: vec![name("oops"), num(1)],
    };
    let st = SymTable::new();
    assert_eq!(
        root.compile(&st).unwrap_err(),
        CompileError::UnboundIdentifier("oops".to_string())
    );
}

#[test]
fn list_literal_packages_element_code_as_one_list_operand() {
    let l = ListNode {
        elements: vec![num(1), num(2)],
    };
    let st = SymTable::new();
    let mut inner = ldc_int(1);
    inner.extend(ldc_int(2));
    assert_eq!(l.compile(&st).unwrap(), vec![Cell::List(inner)]);
}

#[test]
fn compile_fresh_uses_one_empty_frame() {
    let e = sexpr("+", vec![num(1), num(2)]);
    let mut expected = ldc_int(2);
    expected.extend(ldc_int(1));
    expected.push(Cell::Inst(Inst::ADD));
    assert_eq!(e.compile_fresh().unwrap(), expected);
}

#[test]
fn error_messages_name_the_failure() {
    assert_eq!(
        CompileError::MalformedIf.message(),
        "[error]: malformed if expression"
    );
    assert_eq!(
        CompileError::MalformedLambda.message(),
        "[error]: malformed lambda expression"
    );
    assert_eq!(
        CompileError::UnboundIdentifier("x".to_string()).message(),
        "[error] Unknown identifier `x`"
    );
}
