use seax_scheme::ast::{
    BoolNode, CharNode, ExprNode, IntNode, ListNode, NameNode, NumNode, RootNode, SExprNode,
    StringNode, UIntNode, FloatNode,
};
use seax_scheme::scope::{Scope, SymTable};

#[test]
fn bind_assigns_consecutive_slots_in_the_current_frame() {
    let mut st = SymTable::new();
    assert_eq!(st.bind("a".to_string()), (0, 0));
    assert_eq!(st.bind("b".to_string()), (0, 1));
    assert_eq!(st.lookup(&"a".to_string()), Some((0, 0)));
    assert_eq!(st.lookup(&"b".to_string()), Some((0, 1)));
}

#[test]
fn rebinding_shadows_with_the_later_slot() {
    let mut st = SymTable::new();
    assert_eq!(st.bind("a".to_string()), (0, 0));
    assert_eq!(st.bind("a".to_string()), (0, 1));
    assert_eq!(st.lookup(&"a".to_string()), Some((0, 1)));
}

#[test]
fn lookup_counts_frame_distance_outward() {
    let mut st = SymTable::new();
    st.bind("outer".to_string());
    let mut child = st.fork();
    child.bind("inner".to_string());
    assert_eq!(child.lookup(&"inner".to_string()), Some((0, 0)));
    assert_eq!(child.lookup(&"outer".to_string()), Some((1, 0)));
    let mut grandchild = child.fork();
    grandchild.bind("deep".to_string());
    assert_eq!(grandchild.lookup(&"outer".to_string()), Some((2, 0)));
    assert_eq!(grandchild.lookup(&"inner".to_string()), Some((1, 0)));
}

#[test]
fn inner_binding_shadows_an_outer_one() {
    let mut st = SymTable::new();
    st.bind("x".to_string());
    let mut child = st.fork();
    child.bind("x".to_string());
    assert_eq!(child.lookup(&"x".to_string()), Some((0, 0)));
}

#[test]
fn fork_bind_is_invisible_to_the_parent() {
    let st = SymTable::new();
    assert_eq!(st.lookup(&"x".to_string()), None);
    let mut child = st.fork();
    child.bind("x".to_string());
    assert_eq!(child.lookup(&"x".to_string()), Some((0, 0)));
    // The parent still resolves nothing, during and after the child's life.
    assert_eq!(st.lookup(&"x".to_string()), None);
    drop(child);
    assert_eq!(st.lookup(&"x".to_string()), None);
}

#[test]
fn sibling_forks_do_not_see_each_other() {
    let st = SymTable::new();
    let mut left = st.fork();
    let mut right = st.fork();
    left.bind("l".to_string());
    right.bind("r".to_string());
    assert_eq!(left.lookup(&"r".to_string()), None);
    assert_eq!(right.lookup(&"l".to_string()), None);
}

#[test]
fn lookup_of_a_free_name_is_none() {
    let mut st = SymTable::new();
    st.bind("bound".to_string());
    assert_eq!(st.lookup(&"free".to_string()), None);
}

#[test]
fn name_node_new_keeps_the_name() {
    let n = NameNode::new("hello".to_string());
    assert_eq!(n.name, "hello");
}

#[test]
fn keyword_and_operator_classification() {
    assert!(NameNode::new("lambda".to_string()).is_kw());
    assert!(NameNode::new("define-syntax".to_string()).is_kw());
    assert!(NameNode::new("atom?".to_string()).is_kw());
    assert!(!NameNode::new("frob".to_string()).is_kw());
    assert!(NameNode::new("+".to_string()).is_arith());
    assert!(NameNode::new("%".to_string()).is_arith());
    assert!(!NameNode::new("=".to_string()).is_arith());
    assert!(NameNode::new("!=".to_string()).is_cmp());
    assert!(NameNode::new("<=".to_string()).is_cmp());
    assert!(!NameNode::new("+".to_string()).is_cmp());
}

#[test]
fn name_print_is_indented_by_level() {
    let n = NameNode::new("foo".to_string());
    assert_eq!(n.print_level(0), "Name: foo\n");
    assert_eq!(n.print_level(2), "\t\tName: foo\n");
    assert_eq!(n.prettyprint(), "Name: foo\n");
}

#[test]
fn number_prints_carry_kind_suffixes() {
    assert_eq!(
        NumNode::IntConst(IntNode { value: -42 }).print_level(1),
        "\tNumber: -42\n"
    );
    assert_eq!(
        NumNode::IntConst(IntNode { value: 0 }).print_level(0),
        "Number: 0\n"
    );
    assert_eq!(
        NumNode::UIntConst(UIntNode { value: 10 }).print_level(0),
        "Number: 10u\n"
    );
    let bits = 1.5f64.to_bits();
    assert_eq!(
        NumNode::FloatConst(FloatNode { bits }).print_level(0),
        format!("Number: {}f\n", bits)
    );
}

#[test]
fn bool_char_and_string_prints() {
    assert_eq!(
        BoolNode { value: true }.print_level(1),
        "\tBoolean: true\n"
    );
    assert_eq!(BoolNode { value: false }.print_level(0), "Boolean: false\n");
    assert_eq!(CharNode { value: 'z' }.print_level(3), "Character: 'z'\n");
    assert_eq!(
        StringNode {
            value: "hi".to_string()
        }
        .print_level(0),
        "String: \"hi\"\n"
    );
}

#[test]
fn sexpr_print_nests_operator_and_operands() {
    let e = SExprNode {
        operator: NameNode::new("+".to_string()),
        operands: vec![
            ExprNode::NumConst(NumNode::IntConst(IntNode { value: 1 })),
            ExprNode::NumConst(NumNode::IntConst(IntNode { value: 2 })),
        ],
    };
    let expected = "S-Expression:\n\
                    \tOperator:\n\
                    \t\tName: +\n\
                    \tOperand: \n\
                    \t\tNumber: 1\n\
                    \tOperand: \n\
                    \t\tNumber: 2\n";
    assert_eq!(e.print_level(0), expected);
}

#[test]
fn root_print_renders_each_expression_one_level_in() {
    let root = RootNode {
        exprs: vec![
            ExprNode::BoolConst(BoolNode { value: true }),
            ExprNode::NumConst(NumNode::IntConst(IntNode { value: 9 })),
        ],
    };
    assert_eq!(root.print_level(0), "\tBoolean: true\n\tNumber: 9\n");
    assert_eq!(root.prettyprint(), "\tBoolean: true\n\tNumber: 9\n");
}

#[test]
fn list_print_renders_a_header_and_indented_elements() {
    let l = ListNode {
        elements: vec![
            ExprNode::NumConst(NumNode::IntConst(IntNode { value: 1 })),
            ExprNode::NumConst(NumNode::IntConst(IntNode { value: 2 })),
        ],
    };
    assert_eq!(
        l.print_level(0),
        "List:\n\t\tNumber: 1\n\n\t\tNumber: 2\n\n"
    );
}

#[test]
fn expr_print_dispatches_by_variant() {
    let e = ExprNode::CharConst(CharNode { value: 'a' });
    assert_eq!(e.print_level(5), "Character: 'a'\n");
    assert_eq!(e.prettyprint(), "Character: 'a'\n");
}
