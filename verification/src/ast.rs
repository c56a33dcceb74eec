//! The abstract syntax tree, together with its mathematical model.

use vstd::prelude::*;

use crate::token::{Tok, Token};

verus! {

/// A node of the syntax tree.
///
/// A whole script is a `Program`; the leaves `Number`, `String`, `Boolean`
/// and `Identifier` double as the runtime values of the language. Binary and
/// unary operator applications carry the operator as the [`Token`] the
/// parser consumed.
#[derive(Debug)]
pub enum ASTNode {
    Program(Box<Vec<ASTNode>>),
    Number(i32),
    String(String),
    Identifier(String),
    VariableDeclaration(String, Box<ASTNode>),
    VariableAssignment(String, Box<ASTNode>),
    FunctionCall(String),
    FunctionDeclaration(String, Vec<ASTNode>),
    If(Box<ASTNode>, Vec<ASTNode>),
    While(Box<ASTNode>, Vec<ASTNode>),
    Print(Box<ASTNode>),
    Boolean(bool),
    Binary(Box<ASTNode>, Token, Box<ASTNode>),
    Unary(Token, Box<ASTNode>),
}

/// The model of an [`ASTNode`]: the same shape over mathematical payloads
/// (`int`, `Seq<char>`, [`Tok`]).
pub ghost enum Ast {
    Program(Seq<Ast>),
    Number(int),
    Str(Seq<char>),
    Identifier(Seq<char>),
    VariableDeclaration(Seq<char>, Box<Ast>),
    VariableAssignment(Seq<char>, Box<Ast>),
    FunctionCall(Seq<char>),
    FunctionDeclaration(Seq<char>, Seq<Ast>),
    If(Box<Ast>, Seq<Ast>),
    While(Box<Ast>, Seq<Ast>),
    Print(Box<Ast>),
    Boolean(bool),
    Binary(Box<Ast>, Tok, Box<Ast>),
    Unary(Tok, Box<Ast>),
}

/// The model of a syntax tree node.
pub open spec fn view_ast(a: ASTNode) -> Ast
    decreases a,
{
    match a {
        ASTNode::Program(stmts) => Ast::Program(view_asts(stmts@)),
        ASTNode::Number(n) => Ast::Number(n as int),
        ASTNode::String(s) => Ast::Str(s@),
        ASTNode::Identifier(s) => Ast::Identifier(s@),
        ASTNode::VariableDeclaration(name, init) => Ast::VariableDeclaration(
            name@,
            Box::new(view_ast(*init)),
        ),
        ASTNode::VariableAssignment(name, e) => Ast::VariableAssignment(
            name@,
            Box::new(view_ast(*e)),
        ),
        ASTNode::FunctionCall(name) => Ast::FunctionCall(name@),
        ASTNode::FunctionDeclaration(name, body) => Ast::FunctionDeclaration(
            name@,
            view_asts(body@),
        ),
        ASTNode::If(cond, body) => Ast::If(Box::new(view_ast(*cond)), view_asts(body@)),
        ASTNode::While(cond, body) => Ast::While(Box::new(view_ast(*cond)), view_asts(body@)),
        ASTNode::Print(e) => Ast::Print(Box::new(view_ast(*e))),
        ASTNode::Boolean(b) => Ast::Boolean(b),
        ASTNode::Binary(l, op, r) => Ast::Binary(
            Box::new(view_ast(*l)),
            op@,
            Box::new(view_ast(*r)),
        ),
        ASTNode::Unary(op, e) => Ast::Unary(op@, Box::new(view_ast(*e))),
    }
}

/// The models of a sequence of syntax tree nodes, in order.
pub open spec fn view_asts(s: Seq<ASTNode>) -> Seq<Ast>
    decreases s,
{
    if s.len() == 0 {
        Seq::empty()
    } else {
        seq![view_ast(s[0])] + view_asts(s.drop_first())
    }
}

impl View for ASTNode {
    type V = Ast;

    open spec fn view(&self) -> Ast {
        view_ast(*self)
    }
}

impl DeepView for ASTNode {
    type V = Ast;

    open spec fn deep_view(&self) -> Ast {
        view_ast(*self)
    }
}

/// A node sequence's model is the element-wise model.
pub proof fn lemma_view_asts_index(s: Seq<ASTNode>)
    ensures
        view_asts(s).len() == s.len(),
        forall|i: int| 0 <= i < s.len() ==> view_asts(s)[i] == view_ast(s[i]),
    decreases s,
{
    if s.len() > 0 {
        lemma_view_asts_index(s.drop_first());
    }
}

/// Appending a node appends its model.
pub proof fn lemma_view_asts_push(s: Seq<ASTNode>, a: ASTNode)
    ensures
        view_asts(s.push(a)) == view_asts(s).push(view_ast(a)),
{
    lemma_view_asts_index(s);
    lemma_view_asts_index(s.push(a));
    assert(view_asts(s.push(a)) =~= view_asts(s).push(view_ast(a)));
}

/// The outcome of comparing two comparable leaves.
#[derive(Clone, Copy, Debug, PartialEq)]
pub enum LeafOrder {
    Less,
    Equal,
    Greater,
}

/// Lexicographic order on character sequences, by code point.
pub open spec fn lex_cmp(a: Seq<char>, b: Seq<char>) -> LeafOrder
    decreases a.len(),
{
    if a.len() == 0 && b.len() == 0 {
        LeafOrder::Equal
    } else if a.len() == 0 {
        LeafOrder::Less
    } else if b.len() == 0 {
        LeafOrder::Greater
    } else if (a[0] as u32) < (b[0] as u32) {
        LeafOrder::Less
    } else if (a[0] as u32) > (b[0] as u32) {
        LeafOrder::Greater
    } else {
        lex_cmp(a.drop_first(), b.drop_first())
    }
}

/// Lexicographic comparison of two string slices, by code point.
fn str_lex_cmp(a: &str, b: &str) -> (r: LeafOrder)
    ensures
        r == lex_cmp(a@, b@),
{
    let na = a.unicode_len();
    let nb = b.unicode_len();
    proof {
        assert(a@.skip(0) =~= a@);
        assert(b@.skip(0) =~= b@);
    }
    let mut i: usize = 0;
    loop
        invariant
            i <= na,
            i <= nb,
            na == a@.len(),
            nb == b@.len(),
            lex_cmp(a@, b@) == lex_cmp(a@.skip(i as int), b@.skip(i as int)),
        decreases na - i,
    {
        if i >= na && i >= nb {
            return LeafOrder::Equal;
        }
        if i >= na {
            return LeafOrder::Less;
        }
        if i >= nb {
            return LeafOrder::Greater;
        }
        let ua = a.get_char(i) as u32;
        let ub = b.get_char(i) as u32;
        proof {
            assert(a@.skip(i as int)[0] == a@[i as int]);
            assert(b@.skip(i as int)[0] == b@[i as int]);
        }
        if ua < ub {
            return LeafOrder::Less;
        }
        if ua > ub {
            return LeafOrder::Greater;
        }
        proof {
            assert(a@.skip(i as int).drop_first() =~= a@.skip(i as int + 1));
            assert(b@.skip(i as int).drop_first() =~= b@.skip(i as int + 1));
        }
        i = i + 1;
    }
}

impl ASTNode {
    /// Ordering, a capability of the number and string leaves only: two
    /// numbers order by value, two strings lexicographically by code
    /// point, and any other pairing is not comparable.
    pub fn leaf_cmp(&self, other: &ASTNode) -> (r: Option<LeafOrder>)
        ensures
            match (self@, other@) {
                (Ast::Number(a), Ast::Number(b)) => r == Some(
                    if a < b {
                        LeafOrder::Less
                    } else if a > b {
                        LeafOrder::Greater
                    } else {
                        LeafOrder::Equal
                    },
                ),
                (Ast::Str(a), Ast::Str(b)) => r == Some(lex_cmp(a, b)),
                _ => r is None,
            },
    {
        match (self, other) {
            (ASTNode::Number(a), ASTNode::Number(b)) => Some(
                if *a < *b {
                    LeafOrder::Less
                } else if *a > *b {
                    LeafOrder::Greater
                } else {
                    LeafOrder::Equal
                },
            ),
            (ASTNode::String(a), ASTNode::String(b)) => Some(str_lex_cmp(a.as_str(), b.as_str())),
            _ => None,
        }
    }

    /// Structural comparison, a capability of the leaf variants only:
    /// two numbers, two strings or two identifiers compare by value, and
    /// any other pairing is not comparable.
    pub fn leaf_eq(&self, other: &ASTNode) -> (r: Option<bool>)
        ensures
            match r {
                Some(b) => {
                    &&& match (self@, other@) {
                        (Ast::Number(a), Ast::Number(c)) => b == (a == c),
                        (Ast::Str(a), Ast::Str(c)) => b == (a == c),
                        (Ast::Identifier(a), Ast::Identifier(c)) => b == (a == c),
                        _ => false,
                    }
                },
                None => {
                    &&& !(self@ is Number && other@ is Number)
                    &&& !(self@ is Str && other@ is Str)
                    &&& !(self@ is Identifier && other@ is Identifier)
                },
            },
    {
        match (self, other) {
            (ASTNode::Number(a), ASTNode::Number(b)) => Some(*a == *b),
            (ASTNode::String(a), ASTNode::String(b)) => Some(*a == *b),
            (ASTNode::Identifier(a), ASTNode::Identifier(b)) => Some(*a == *b),
            _ => None,
        }
    }
}

impl Clone for ASTNode {
    /// The copy carries the same model as the original.
    fn clone(&self) -> (res: Self)
        ensures
            res@ == self@,
        decreases *self,
    {
        match self {
            ASTNode::Program(stmts) => ASTNode::Program(Box::new(clone_nodes(stmts))),
            ASTNode::Number(n) => ASTNode::Number(*n),
            ASTNode::String(s) => ASTNode::String(s.clone()),
            ASTNode::Identifier(s) => ASTNode::Identifier(s.clone()),
            ASTNode::VariableDeclaration(name, init) => ASTNode::VariableDeclaration(
                name.clone(),
                Box::new((**init).clone()),
            ),
            ASTNode::VariableAssignment(name, e) => ASTNode::VariableAssignment(
                name.clone(),
                Box::new((**e).clone()),
            ),
            ASTNode::FunctionCall(name) => ASTNode::FunctionCall(name.clone()),
            ASTNode::FunctionDeclaration(name, body) => ASTNode::FunctionDeclaration(
                name.clone(),
                clone_nodes(body),
            ),
            ASTNode::If(cond, body) => ASTNode::If(
                Box::new((**cond).clone()),
                clone_nodes(body),
            ),
            ASTNode::While(cond, body) => ASTNode::While(
                Box::new((**cond).clone()),
                clone_nodes(body),
            ),
            ASTNode::Print(e) => ASTNode::Print(Box::new((**e).clone())),
            ASTNode::Boolean(b) => ASTNode::Boolean(*b),
            ASTNode::Binary(l, op, r) => ASTNode::Binary(
                Box::new((**l).clone()),
                op.clone(),
                Box::new((**r).clone()),
            ),
            ASTNode::Unary(op, e) => ASTNode::Unary(op.clone(), Box::new((**e).clone())),
        }
    }
}

/// Copies a statement list, preserving its model.
fn clone_nodes(nodes: &Vec<ASTNode>) -> (res: Vec<ASTNode>)
    ensures
        view_asts(res@) == view_asts(nodes@),
    decreases *nodes,
{
    let mut res: Vec<ASTNode> = Vec::new();
    let mut k: usize = 0;
    while k < nodes.len()
        invariant
            k <= nodes.len(),
            view_asts(res@) == view_asts(nodes@.subrange(0, k as int)),
        decreases nodes.len() - k,
    {
        let ghost prefix = nodes@.subrange(0, k as int);
        let ghost res_old = res@;
        res.push(nodes[k].clone());
        proof {
            assert(res@ =~= res_old.push(res@.last()));
            lemma_view_asts_push(res_old, res@.last());
            lemma_view_asts_push(prefix, nodes@[k as int]);
            assert(nodes@.subrange(0, k as int + 1) =~= prefix.push(nodes@[k as int]));
        }
        k = k + 1;
    }
    proof {
        assert(nodes@.subrange(0, nodes@.len() as int) =~= nodes@);
    }
    res
}

} // verus!
