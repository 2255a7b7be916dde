//! The diagnostic rendering of a tree: an indented, multi-line description,
//! one tab per nesting level, recursing into children in source order.
//!
//! Purely presentational: each node kind has a fixed textual shape, stated
//! exactly by the spec functions below.  Numbers are rendered in decimal; a
//! floating-point constant is rendered as its raw bit pattern with an `f`
//! suffix, since the compiler carries floats as bits and never computes on
//! them.

use vstd::prelude::*;
use vstd::string::StringExecFns;

use crate::ast::ExprNode;
use crate::ast::ListNode;
use crate::ast::NameNode;
use crate::ast::NumNode;
use crate::ast::RootNode;
use crate::ast::SExprNode;
use crate::ast::BoolNode;
use crate::ast::CharNode;
use crate::ast::StringNode;

verus! {

broadcast use vstd::std_specs::vec::group_vec_axioms, vstd::seq::group_seq_axioms;

/// One tab per nesting level.
pub open spec fn indent(level: int) -> Seq<char>
    decreases level,
{
    if level <= 0 {
        Seq::empty()
    } else {
        indent(level - 1) + "\t"@
    }
}

/// The decimal digit character for `d` (0 through 9).
pub open spec fn dec_digit(d: int) -> char {
    ((d + 48) as u8) as char
}

/// The decimal rendering of a non-negative number, most significant digit
/// first.
pub open spec fn dec_nat(n: nat) -> Seq<char>
    decreases n,
{
    if n < 10 {
        seq![dec_digit(n as int)]
    } else {
        dec_nat(n / 10).push(dec_digit((n % 10) as int))
    }
}

/// The decimal rendering of a signed number.
pub open spec fn dec_int(v: int) -> Seq<char> {
    if v >= 0 {
        dec_nat(v as nat)
    } else {
        seq!['-'] + dec_nat((-v) as nat)
    }
}

/// How many levels deeper than its own the rendering of a tree reaches: an
/// S-expression prints its parts two levels in, a root or a list literal
/// prints its children one level in, and the leaves print at their own
/// level.  Bounds the indentation arithmetic.
pub open spec fn print_depth(e: ExprNode) -> int
    decreases e,
{
    match e {
        ExprNode::Root(r) => 1 + print_depth_upto(r.exprs@, r.exprs@.len() as int),
        ExprNode::SExpr(sn) => 2 + print_depth_upto(sn.operands@, sn.operands@.len() as int),
        ExprNode::ListConst(l) => 1 + print_depth_upto(l.elements@, l.elements@.len() as int),
        _ => 0,
    }
}

/// The largest print depth among the first `n` trees of a sequence.
pub open spec fn print_depth_upto(s: Seq<ExprNode>, n: int) -> int
    decreases s, n,
{
    if n <= 0 || n > s.len() {
        0
    } else {
        let rest = print_depth_upto(s, n - 1);
        let this = print_depth(s[n - 1]);
        if this > rest {
            this
        } else {
            rest
        }
    }
}

/// The rendering of an identifier.
pub open spec fn print_name(n: NameNode, level: int) -> Seq<char> {
    indent(level) + "Name: "@ + n.name@ + "\n"@
}

/// The rendering of a numeric constant: unsigned numbers carry a `u` suffix,
/// floating-point bit patterns an `f` suffix.
pub open spec fn print_num(n: NumNode, level: int) -> Seq<char> {
    match n {
        NumNode::UIntConst(u) => indent(level) + "Number: "@ + dec_nat(u.value as nat) + "u"@
            + "\n"@,
        NumNode::IntConst(i) => indent(level) + "Number: "@ + dec_int(i.value as int) + "\n"@,
        NumNode::FloatConst(f) => indent(level) + "Number: "@ + dec_nat(f.bits as nat) + "f"@
            + "\n"@,
    }
}

/// The rendering of a boolean constant.
pub open spec fn print_bool(b: BoolNode, level: int) -> Seq<char> {
    indent(level) + "Boolean: "@ + (if b.value {
        "true"@
    } else {
        "false"@
    }) + "\n"@
}

/// The rendering of a character constant (independent of the level).
pub open spec fn print_char_node(c: CharNode, level: int) -> Seq<char> {
    "Character: '"@ + seq![c.value] + "'\n"@
}

/// The rendering of a string constant (independent of the level).
pub open spec fn print_string_node(sn: StringNode, level: int) -> Seq<char> {
    "String: \""@ + sn.value@ + "\"\n"@
}

/// The rendering of any tree at a nesting level.
pub open spec fn print_expr(e: ExprNode, level: int) -> Seq<char>
    decreases e,
{
    match e {
        ExprNode::Root(r) => print_root_upto(r.exprs@, level, r.exprs@.len() as int),
        ExprNode::SExpr(sn) => indent(level) + "S-Expression:\n"@ + indent(level + 1)
            + "Operator:\n"@ + print_name(sn.operator, level + 2) + print_operands_upto(
            sn.operands@,
            level,
            sn.operands@.len() as int,
        ),
        ExprNode::Name(n) => print_name(n, level),
        ExprNode::ListConst(l) => "List:\n"@ + print_elems_upto(
            l.elements@,
            level,
            l.elements@.len() as int,
        ),
        ExprNode::NumConst(n) => print_num(n, level),
        ExprNode::BoolConst(b) => print_bool(b, level),
        ExprNode::CharConst(c) => print_char_node(c, level),
        ExprNode::StringConst(s) => print_string_node(s, level),
    }
}

/// The renderings of the first `n` top-level expressions of a program, one
/// level in, concatenated.
pub open spec fn print_root_upto(s: Seq<ExprNode>, level: int, n: int) -> Seq<char>
    decreases s, n,
{
    if n <= 0 || n > s.len() {
        Seq::empty()
    } else {
        print_root_upto(s, level, n - 1) + print_expr(s[n - 1], level + 1)
    }
}

/// The operand sections of an S-expression's rendering, each one an indented
/// header line and the operand's own rendering two levels in.
pub open spec fn print_operands_upto(s: Seq<ExprNode>, level: int, n: int) -> Seq<char>
    decreases s, n,
{
    if n <= 0 || n > s.len() {
        Seq::empty()
    } else {
        print_operands_upto(s, level, n - 1) + indent(level + 1) + "Operand: \n"@ + print_expr(
            s[n - 1],
            level + 2,
        )
    }
}

/// The element lines of a list literal's rendering, each indented one level
/// in and closed by a newline.
pub open spec fn print_elems_upto(s: Seq<ExprNode>, level: int, n: int) -> Seq<char>
    decreases s, n,
{
    if n <= 0 || n > s.len() {
        Seq::empty()
    } else {
        print_elems_upto(s, level, n - 1) + indent(level + 1) + print_expr(s[n - 1], level + 1)
            + "\n"@
    }
}

/// Relies on `String::push`, which appends exactly the given character to
/// the end of the string.
#[verifier::external_body]
fn push_char(s: &mut String, c: char)
    ensures
        final(s)@ == old(s)@.push(c),
{
    s.push(c);
}

/// A run of tabs, one per level.
fn indent_string(level: usize) -> (r: String)
    ensures
        r@ == indent(level as int),
{
    let mut r = String::new();
    let mut i: usize = 0;
    while i < level
        invariant
            i <= level,
            r@ == indent(i as int),
        decreases level - i,
    {
        r.append("\t");
        i = i + 1;
    }
    r
}

/// Appends the decimal rendering of `n`, most significant digit first.
fn push_dec(s: &mut String, n: u128)
    ensures
        final(s)@ == old(s)@ + dec_nat(n as nat),
    decreases n,
{
    if n >= 10 {
        push_dec(s, n / 10);
        let ghost mid = s@;
        let d = (n % 10) as u8 + 48;
        push_char(s, d as char);
        proof {
            assert(d as char == dec_digit((n % 10) as int));
            assert(mid.push(d as char) =~= mid + seq![dec_digit((n % 10) as int)]);
            assert(dec_nat(n as nat) == dec_nat((n as nat) / 10).push(
                dec_digit(((n as nat) % 10) as int),
            ));
            assert(old(s)@ + dec_nat((n as nat) / 10) + seq![dec_digit(((n as nat) % 10) as int)]
                =~= old(s)@ + dec_nat(n as nat));
        }
    } else {
        let ghost pre = s@;
        let d = n as u8 + 48;
        push_char(s, d as char);
        proof {
            assert(d as char == dec_digit(n as int));
            assert(pre.push(d as char) =~= pre + seq![dec_digit(n as int)]);
        }
    }
}

/// The decimal rendering of an unsigned machine number.
fn fmt_usize(n: usize) -> (r: String)
    ensures
        r@ == dec_nat(n as nat),
{
    let mut s = String::new();
    push_dec(&mut s, n as u128);
    proof {
        assert(Seq::<char>::empty() + dec_nat(n as nat) =~= dec_nat(n as nat));
    }
    s
}

/// The decimal rendering of a 64-bit bit pattern.
fn fmt_u64(n: u64) -> (r: String)
    ensures
        r@ == dec_nat(n as nat),
{
    let mut s = String::new();
    push_dec(&mut s, n as u128);
    proof {
        assert(Seq::<char>::empty() + dec_nat(n as nat) =~= dec_nat(n as nat));
    }
    s
}

/// The decimal rendering of a signed machine number, with a leading minus
/// sign when negative.
fn fmt_isize(v: isize) -> (r: String)
    ensures
        r@ == dec_int(v as int),
{
    let mut s = String::new();
    if v < 0 {
        push_char(&mut s, '-');
        let m = -(v as i128);
        let ghost pre = s@;
        push_dec(&mut s, m as u128);
        proof {
            assert(pre =~= Seq::<char>::empty().push('-'));
            assert(pre =~= seq!['-']);
            assert(m as nat == (-(v as int)) as nat);
            assert(s@ =~= dec_int(v as int));
        }
    } else {
        push_dec(&mut s, v as u128);
        proof {
            assert(Seq::<char>::empty() + dec_nat(v as nat) =~= dec_nat(v as nat));
        }
    }
    s
}

impl NameNode {
    /// Renders this identifier at the given nesting level.
    pub fn print_level(&self, level: usize) -> (r: String)
        ensures
            r@ == print_name(*self, level as int),
    {
        let mut r = indent_string(level);
        r.append("Name: ");
        r.append(self.name.as_str());
        r.append("\n");
        r
    }

    /// Renders this identifier at the outermost level.
    pub fn prettyprint(&self) -> (r: String)
        ensures
            r@ == print_name(*self, 0),
    {
        self.print_level(0)
    }
}

impl NumNode {
    /// Renders this numeric constant at the given nesting level.
    pub fn print_level(&self, level: usize) -> (r: String)
        ensures
            r@ == print_num(*self, level as int),
    {
        let mut r = indent_string(level);
        r.append("Number: ");
        match self {
            NumNode::UIntConst(node) => {
                let d = fmt_usize(node.value);
                r.append(d.as_str());
                r.append("u");
            },
            NumNode::IntConst(node) => {
                let d = fmt_isize(node.value);
                r.append(d.as_str());
            },
            NumNode::FloatConst(node) => {
                let d = fmt_u64(node.bits);
                r.append(d.as_str());
                r.append("f");
            },
        }
        r.append("\n");
        r
    }

    /// Renders this numeric constant at the outermost level.
    pub fn prettyprint(&self) -> (r: String)
        ensures
            r@ == print_num(*self, 0),
    {
        self.print_level(0)
    }
}

impl BoolNode {
    /// Renders this boolean constant at the given nesting level.
    pub fn print_level(&self, level: usize) -> (r: String)
        ensures
            r@ == print_bool(*self, level as int),
    {
        let mut r = indent_string(level);
        r.append("Boolean: ");
        if self.value {
            r.append("true");
        } else {
            r.append("false");
        }
        r.append("\n");
        r
    }

    /// Renders this boolean constant at the outermost level.
    pub fn prettyprint(&self) -> (r: String)
        ensures
            r@ == print_bool(*self, 0),
    {
        self.print_level(0)
    }
}

impl CharNode {
    /// Renders this character constant.
    pub fn print_level(&self, level: usize) -> (r: String)
        ensures
            r@ == print_char_node(*self, level as int),
    {
        let mut r = String::new();
        r.append("Character: '");
        let ghost pre = r@;
        push_char(&mut r, self.value);
        proof {
            assert(pre.push(self.value) =~= pre + seq![self.value]);
        }
        r.append("'\n");
        proof {
            assert(r@ =~= print_char_node(*self, level as int));
        }
        r
    }

    /// Renders this character constant at the outermost level.
    pub fn prettyprint(&self) -> (r: String)
        ensures
            r@ == print_char_node(*self, 0),
    {
        self.print_level(0)
    }
}

impl StringNode {
    /// Renders this string constant.
    pub fn print_level(&self, level: usize) -> (r: String)
        ensures
            r@ == print_string_node(*self, level as int),
    {
        let mut r = String::new();
        r.append("String: \"");
        r.append(self.value.as_str());
        r.append("\"\n");
        r
    }

    /// Renders this string constant at the outermost level.
    pub fn prettyprint(&self) -> (r: String)
        ensures
            r@ == print_string_node(*self, 0),
    {
        self.print_level(0)
    }
}


/// The print depth of a sequence bounds each member's, and is never
/// negative.
pub proof fn lemma_print_depth_upto(s: Seq<ExprNode>, n: int, i: int)
    requires
        0 <= i < n <= s.len(),
    ensures
        print_depth_upto(s, n) >= print_depth(s[i]),
        print_depth_upto(s, n) >= 0,
    decreases n,
{
    lemma_print_depth_upto_nonneg(s, n - 1);
    if i < n - 1 {
        lemma_print_depth_upto(s, n - 1, i);
    }
}

/// A sequence's print depth is never negative.
pub proof fn lemma_print_depth_upto_nonneg(s: Seq<ExprNode>, n: int)
    ensures
        print_depth_upto(s, n) >= 0,
    decreases s, n,
{
    if 0 < n <= s.len() {
        lemma_print_depth_upto_nonneg(s, n - 1);
    }
}

impl RootNode {
    /// Renders a whole program: each top-level expression one level in, in
    /// source order.
    pub fn print_level(&self, level: usize) -> (r: String)
        requires
            level + print_depth(ExprNode::Root(*self)) + 2 <= usize::MAX,
        ensures
            r@ == print_expr(ExprNode::Root(*self), level as int),
        decreases self,
    {
        let ghost es = self.exprs@;
        proof {
            lemma_print_depth_upto_nonneg(es, es.len() as int);
        }
        let mut r = String::new();
        proof {
            assert(r@ =~= print_root_upto(es, level as int, 0));
        }
        let mut i: usize = 0;
        while i < self.exprs.len()
            invariant
                es == self.exprs@,
                level + print_depth(ExprNode::Root(*self)) + 2 <= usize::MAX,
                print_depth(ExprNode::Root(*self)) == 1 + print_depth_upto(es, es.len() as int),
                i <= es.len(),
                r@ == print_root_upto(es, level as int, i as int),
            decreases es.len() - i,
        {
            proof {
                lemma_print_depth_upto(es, es.len() as int, i as int);
            }
            let p = self.exprs[i].print_level(level + 1);
            r.append(p.as_str());
            proof {
                assert(r@ =~= print_root_upto(es, level as int, i + 1));
            }
            i = i + 1;
        }
        r
    }

    /// Renders a whole program at the outermost level.
    pub fn prettyprint(&self) -> (r: String)
        requires
            print_depth(ExprNode::Root(*self)) + 2 <= usize::MAX,
        ensures
            r@ == print_expr(ExprNode::Root(*self), 0),
    {
        self.print_level(0)
    }
}

impl ListNode {
    /// Renders a list literal: a header, then each element one level in, one
    /// line per element.
    pub fn print_level(&self, level: usize) -> (r: String)
        requires
            level + print_depth(ExprNode::ListConst(*self)) + 2 <= usize::MAX,
        ensures
            r@ == print_expr(ExprNode::ListConst(*self), level as int),
        decreases self,
    {
        let ghost es = self.elements@;
        proof {
            lemma_print_depth_upto_nonneg(es, es.len() as int);
        }
        let mut r = String::new();
        r.append("List:\n");
        let ghost prefix = r@;
        let tab2 = indent_string(level + 1);
        proof {
            assert(r@ =~= prefix + print_elems_upto(es, level as int, 0));
        }
        let mut i: usize = 0;
        while i < self.elements.len()
            invariant
                es == self.elements@,
                level + print_depth(ExprNode::ListConst(*self)) + 2 <= usize::MAX,
                print_depth(ExprNode::ListConst(*self)) == 1 + print_depth_upto(
                    es,
                    es.len() as int,
                ),
                i <= es.len(),
                prefix == "List:\n"@,
                tab2@ == indent(level + 1),
                r@ == prefix + print_elems_upto(es, level as int, i as int),
            decreases es.len() - i,
        {
            proof {
                lemma_print_depth_upto(es, es.len() as int, i as int);
            }
            r.append(tab2.as_str());
            let p = self.elements[i].print_level(level + 1);
            r.append(p.as_str());
            r.append("\n");
            proof {
                assert(r@ =~= prefix + print_elems_upto(es, level as int, i + 1));
            }
            i = i + 1;
        }
        r
    }

    /// Renders a list literal at the outermost level.
    pub fn prettyprint(&self) -> (r: String)
        requires
            print_depth(ExprNode::ListConst(*self)) + 2 <= usize::MAX,
        ensures
            r@ == print_expr(ExprNode::ListConst(*self), 0),
    {
        self.print_level(0)
    }
}

impl SExprNode {
    /// Renders an S-expression: a header, the operator two levels in under
    /// its own header line, then each operand two levels in under one
    /// header line per operand.
    pub fn print_level(&self, level: usize) -> (r: String)
        requires
            level + print_depth(ExprNode::SExpr(*self)) + 2 <= usize::MAX,
        ensures
            r@ == print_expr(ExprNode::SExpr(*self), level as int),
        decreases self,
    {
        let ghost es = self.operands@;
        proof {
            lemma_print_depth_upto_nonneg(es, es.len() as int);
        }
        let mut r = indent_string(level);
        r.append("S-Expression:\n");
        let tab2 = indent_string(level + 1);
        r.append(tab2.as_str());
        r.append("Operator:\n");
        let opr = self.operator.print_level(level + 2);
        r.append(opr.as_str());
        let ghost prefix = r@;
        proof {
            assert(prefix == indent(level as int) + "S-Expression:\n"@ + indent(level as int + 1)
                + "Operator:\n"@ + print_name(self.operator, level as int + 2));
            assert(r@ =~= prefix + print_operands_upto(es, level as int, 0));
        }
        let mut i: usize = 0;
        while i < self.operands.len()
            invariant
                es == self.operands@,
                level + print_depth(ExprNode::SExpr(*self)) + 2 <= usize::MAX,
                print_depth(ExprNode::SExpr(*self)) == 2 + print_depth_upto(es, es.len() as int),
                i <= es.len(),
                tab2@ == indent(level as int + 1),
                r@ == prefix + print_operands_upto(es, level as int, i as int),
            decreases es.len() - i,
        {
            proof {
                lemma_print_depth_upto(es, es.len() as int, i as int);
            }
            r.append(tab2.as_str());
            r.append("Operand: \n");
            let p = self.operands[i].print_level(level + 2);
            r.append(p.as_str());
            proof {
                assert(r@ =~= prefix + print_operands_upto(es, level as int, i + 1));
            }
            i = i + 1;
        }
        proof {
            assert(r@ == print_expr(ExprNode::SExpr(*self), level as int));
        }
        r
    }

    /// Renders an S-expression at the outermost level.
    pub fn prettyprint(&self) -> (r: String)
        requires
            print_depth(ExprNode::SExpr(*self)) + 2 <= usize::MAX,
        ensures
            r@ == print_expr(ExprNode::SExpr(*self), 0),
    {
        self.print_level(0)
    }
}

impl ExprNode {
    /// Renders any tree at the given nesting level, dispatching on the node
    /// variant.
    pub fn print_level(&self, level: usize) -> (r: String)
        requires
            level + print_depth(*self) + 2 <= usize::MAX,
        ensures
            r@ == print_expr(*self, level as int),
        decreases self,
    {
        match self {
            ExprNode::Root(node) => node.print_level(level),
            ExprNode::SExpr(node) => node.print_level(level),
            ExprNode::Name(node) => node.print_level(level),
            ExprNode::ListConst(node) => node.print_level(level),
            ExprNode::NumConst(node) => node.print_level(level),
            ExprNode::BoolConst(node) => node.print_level(level),
            ExprNode::CharConst(node) => node.print_level(level),
            ExprNode::StringConst(node) => node.print_level(level),
        }
    }

    /// Renders any tree at the outermost level.
    pub fn prettyprint(&self) -> (r: String)
        requires
            print_depth(*self) + 2 <= usize::MAX,
        ensures
            r@ == print_expr(*self, 0),
    {
        self.print_level(0)
    }
}

} // verus!
