use crate::cache::{CacheId, CacheSpan};
use crate::engine::engine::{BinaryOpType, UnaryOpType};
use crate::num::{
    all_digits, dec_of_text, dec_parse, dec_val, int_parse, is_float_text, text_all_digits,
    text_is_float, BigInt, Decimal,
};
use crate::parser::error::{NumParseError, PErrV, PError, PResult};
use crate::parser::node::{Node, NodeV};
use crate::parser::token::{token_text, TokItem, Token, TokenStream};
use vstd::prelude::*;
use vstd::string::StrSliceExecFns;
use vstd::string::StringExecFns;

verus! {

/// An expression tree node. Every compound variant owns its sub-nodes; the
/// tree has no sharing and no back-edges.
#[derive(Debug)]
pub enum Expr {
    Nil,
    Var(String),
    Bool(bool),
    Int(BigInt),
    Float(Decimal),
    String(String),
    Call(Node<String>, Vec<Node<Expr>>),
    Neg(Box<Node<Expr>>),
    Not(Box<Node<Expr>>),
    Add(Box<Node<Expr>>, Box<Node<Expr>>),
    Sub(Box<Node<Expr>>, Box<Node<Expr>>),
    Mul(Box<Node<Expr>>, Box<Node<Expr>>),
    Div(Box<Node<Expr>>, Box<Node<Expr>>),
    Mod(Box<Node<Expr>>, Box<Node<Expr>>),
    Pow(Box<Node<Expr>>, Box<Node<Expr>>),
    And(Box<Node<Expr>>, Box<Node<Expr>>),
    Or(Box<Node<Expr>>, Box<Node<Expr>>),
    Eq(Box<Node<Expr>>, Box<Node<Expr>>),
    Lt(Box<Node<Expr>>, Box<Node<Expr>>),
    Gt(Box<Node<Expr>>, Box<Node<Expr>>),
    NEq(Box<Node<Expr>>, Box<Node<Expr>>),
    LtEq(Box<Node<Expr>>, Box<Node<Expr>>),
    GtEq(Box<Node<Expr>>, Box<Node<Expr>>),
    Assign(Node<String>, Box<Node<Expr>>),
    Walrus(Node<String>, Box<Node<Expr>>),
    Ternary(Box<Node<Expr>>, Box<Node<Expr>>, Box<Node<Expr>>),
}

/// The abstraction of an expression: literals as mathematical values, names
/// as character sequences, and the operator forms folded into unary, binary
/// and ternary nodes over the operator tags the evaluator dispatches on.
#[verifier::ext_equal]
pub enum ExprV {
    Nil,
    Var(Seq<char>),
    Bool(bool),
    Int(int),
    Float(Decimal),
    Str(Seq<char>),
    Call(NodeV<Seq<char>>, Seq<NodeV<ExprV>>),
    Unary(UnaryOpType, Box<NodeV<ExprV>>),
    Binary(BinaryOpType, Box<NodeV<ExprV>>, Box<NodeV<ExprV>>),
    Assign(NodeV<Seq<char>>, Box<NodeV<ExprV>>),
    Walrus(NodeV<Seq<char>>, Box<NodeV<ExprV>>),
    Ternary(Box<NodeV<ExprV>>, Box<NodeV<ExprV>>, Box<NodeV<ExprV>>),
}

pub open spec fn expr_view(e: &Expr) -> ExprV
    decreases e, 0int,
{
    match e {
        Expr::Nil => ExprV::Nil,
        Expr::Var(x) => ExprV::Var(x@),
        Expr::Bool(b) => ExprV::Bool(*b),
        Expr::Int(v) => ExprV::Int(v.value()),
        Expr::Float(d) => ExprV::Float(*d),
        Expr::String(s) => ExprV::Str(s@),
        Expr::Call(f, args) => ExprV::Call(f@, expr_nodes_view(args@)),
        Expr::Neg(a) => ExprV::Unary(UnaryOpType::Neg, Box::new(expr_node_view(&a.item, a.span))),
        Expr::Not(a) => ExprV::Unary(UnaryOpType::Not, Box::new(expr_node_view(&a.item, a.span))),
        Expr::Add(a, b) => ExprV::Binary(
            BinaryOpType::Add,
            Box::new(expr_node_view(&a.item, a.span)),
            Box::new(expr_node_view(&b.item, b.span)),
        ),
        Expr::Sub(a, b) => ExprV::Binary(
            BinaryOpType::Sub,
            Box::new(expr_node_view(&a.item, a.span)),
            Box::new(expr_node_view(&b.item, b.span)),
        ),
        Expr::Mul(a, b) => ExprV::Binary(
            BinaryOpType::Mul,
            Box::new(expr_node_view(&a.item, a.span)),
            Box::new(expr_node_view(&b.item, b.span)),
        ),
        Expr::Div(a, b) => ExprV::Binary(
            BinaryOpType::Div,
            Box::new(expr_node_view(&a.item, a.span)),
            Box::new(expr_node_view(&b.item, b.span)),
        ),
        Expr::Mod(a, b) => ExprV::Binary(
            BinaryOpType::Mod,
            Box::new(expr_node_view(&a.item, a.span)),
            Box::new(expr_node_view(&b.item, b.span)),
        ),
        Expr::Pow(a, b) => ExprV::Binary(
            BinaryOpType::Pow,
            Box::new(expr_node_view(&a.item, a.span)),
            Box::new(expr_node_view(&b.item, b.span)),
        ),
        Expr::And(a, b) => ExprV::Binary(
            BinaryOpType::And,
            Box::new(expr_node_view(&a.item, a.span)),
            Box::new(expr_node_view(&b.item, b.span)),
        ),
        Expr::Or(a, b) => ExprV::Binary(
            BinaryOpType::Or,
            Box::new(expr_node_view(&a.item, a.span)),
            Box::new(expr_node_view(&b.item, b.span)),
        ),
        Expr::Eq(a, b) => ExprV::Binary(
            BinaryOpType::Eq,
            Box::new(expr_node_view(&a.item, a.span)),
            Box::new(expr_node_view(&b.item, b.span)),
        ),
        Expr::Lt(a, b) => ExprV::Binary(
            BinaryOpType::Lt,
            Box::new(expr_node_view(&a.item, a.span)),
            Box::new(expr_node_view(&b.item, b.span)),
        ),
        Expr::Gt(a, b) => ExprV::Binary(
            BinaryOpType::Gt,
            Box::new(expr_node_view(&a.item, a.span)),
            Box::new(expr_node_view(&b.item, b.span)),
        ),
        Expr::NEq(a, b) => ExprV::Binary(
            BinaryOpType::NEq,
            Box::new(expr_node_view(&a.item, a.span)),
            Box::new(expr_node_view(&b.item, b.span)),
        ),
        Expr::LtEq(a, b) => ExprV::Binary(
            BinaryOpType::LtEq,
            Box::new(expr_node_view(&a.item, a.span)),
            Box::new(expr_node_view(&b.item, b.span)),
        ),
        Expr::GtEq(a, b) => ExprV::Binary(
            BinaryOpType::GtEq,
            Box::new(expr_node_view(&a.item, a.span)),
            Box::new(expr_node_view(&b.item, b.span)),
        ),
        Expr::Assign(x, a) => ExprV::Assign(x@, Box::new(expr_node_view(&a.item, a.span))),
        Expr::Walrus(x, a) => ExprV::Walrus(x@, Box::new(expr_node_view(&a.item, a.span))),
        Expr::Ternary(c, a, b) => ExprV::Ternary(
            Box::new(expr_node_view(&c.item, c.span)),
            Box::new(expr_node_view(&a.item, a.span)),
            Box::new(expr_node_view(&b.item, b.span)),
        ),
    }
}

pub open spec fn expr_node_view(e: &Expr, span: crate::cache::CacheSpan) -> NodeV<ExprV>
    decreases e, 1int,
{
    NodeV { span, item: expr_view(e) }
}

pub open spec fn expr_nodes_view(s: Seq<Node<Expr>>) -> Seq<NodeV<ExprV>>
    decreases s, 2int,
{
    if s.len() == 0 {
        Seq::empty()
    } else {
        expr_nodes_view(s.drop_last()).push(expr_node_view(&s.last().item, s.last().span))
    }
}

pub proof fn lemma_expr_nodes_view(s: Seq<Node<Expr>>)
    ensures
        expr_nodes_view(s).len() == s.len(),
        forall|i: int|
            0 <= i < s.len() ==> expr_nodes_view(s)[i] == expr_node_view(&s[i].item, s[i].span),
    decreases s.len(),
{
    if s.len() > 0 {
        lemma_expr_nodes_view(s.drop_last());
    }
}

/// Every integer literal in the expression is canonical, and every decimal
/// literal finite.
pub open spec fn expr_wf(e: &Expr) -> bool
    decreases e, 0int,
{
    match e {
        Expr::Nil => true,
        Expr::Var(_) => true,
        Expr::Bool(_) => true,
        Expr::Int(v) => v.wf(),
        Expr::Float(d) => crate::num::dec_finite(*d),
        Expr::String(_) => true,
        Expr::Call(_, args) => exprs_wf(args@),
        Expr::Neg(a) => expr_wf(&a.item),
        Expr::Not(a) => expr_wf(&a.item),
        Expr::Add(a, b) => expr_wf(&a.item) && expr_wf(&b.item),
        Expr::Sub(a, b) => expr_wf(&a.item) && expr_wf(&b.item),
        Expr::Mul(a, b) => expr_wf(&a.item) && expr_wf(&b.item),
        Expr::Div(a, b) => expr_wf(&a.item) && expr_wf(&b.item),
        Expr::Mod(a, b) => expr_wf(&a.item) && expr_wf(&b.item),
        Expr::Pow(a, b) => expr_wf(&a.item) && expr_wf(&b.item),
        Expr::And(a, b) => expr_wf(&a.item) && expr_wf(&b.item),
        Expr::Or(a, b) => expr_wf(&a.item) && expr_wf(&b.item),
        Expr::Eq(a, b) => expr_wf(&a.item) && expr_wf(&b.item),
        Expr::Lt(a, b) => expr_wf(&a.item) && expr_wf(&b.item),
        Expr::Gt(a, b) => expr_wf(&a.item) && expr_wf(&b.item),
        Expr::NEq(a, b) => expr_wf(&a.item) && expr_wf(&b.item),
        Expr::LtEq(a, b) => expr_wf(&a.item) && expr_wf(&b.item),
        Expr::GtEq(a, b) => expr_wf(&a.item) && expr_wf(&b.item),
        Expr::Assign(_, a) => expr_wf(&a.item),
        Expr::Walrus(_, a) => expr_wf(&a.item),
        Expr::Ternary(c, a, b) => expr_wf(&c.item) && expr_wf(&a.item) && expr_wf(&b.item),
    }
}

pub open spec fn exprs_wf(s: Seq<Node<Expr>>) -> bool
    decreases s, 2int,
{
    if s.len() == 0 {
        true
    } else {
        exprs_wf(s.drop_last()) && expr_wf(&s.last().item)
    }
}

pub proof fn lemma_exprs_wf(s: Seq<Node<Expr>>)
    requires
        exprs_wf(s),
    ensures
        forall|i: int| 0 <= i < s.len() ==> expr_wf(&(#[trigger] s[i]).item),
    decreases s.len(),
{
    if s.len() > 0 {
        lemma_exprs_wf(s.drop_last());
        assert forall|i: int| 0 <= i < s.len() implies expr_wf(&(#[trigger] s[i]).item) by {
            if i < s.len() - 1 {
                assert(s.drop_last()[i] == s[i]);
            }
        }
    }
}

/// Element-wise well-formedness gives the folded form.
pub proof fn lemma_exprs_wf_intro(s: Seq<Node<Expr>>)
    requires
        forall|i: int| 0 <= i < s.len() ==> expr_wf(&(#[trigger] s[i]).item),
    ensures
        exprs_wf(s),
    decreases s.len(),
{
    if s.len() > 0 {
        assert forall|i: int| 0 <= i < s.drop_last().len() implies expr_wf(
            &(#[trigger] s.drop_last()[i]).item,
        ) by {
            assert(s.drop_last()[i] == s[i]);
        }
        lemma_exprs_wf_intro(s.drop_last());
    }
}

impl View for Expr {
    type V = ExprV;

    open spec fn view(&self) -> ExprV {
        expr_view(self)
    }
}


// ---------------------------------------------------------------------------
// The grammar, written down: one spec-level parsing function per tier,
// returning the abstraction of the node built (or the error raised) and the
// cursor position afterwards. Each executable tier function below is proved
// to return exactly its mirror's result. Positions handed from one tier to
// the next are clipped into the bounds the cursor really obeys, which the
// executable contracts establish, so the functions are total.
// ---------------------------------------------------------------------------
pub open spec fn expr_res_view(r: PResult<Node<Expr>>) -> Result<NodeV<ExprV>, PErrV> {
    match r {
        Ok(n) => Ok(n@),
        Err(e) => Err(e@),
    }
}

/// A raw position clipped into `lo ..= hi` (the bound `hi` winning when the
/// interval is empty, so the result never passes the end of the stream).
pub open spec fn clip(lo: int, hi: int, raw: int) -> int {
    if (if raw < lo {
        lo
    } else {
        raw
    }) > hi {
        hi
    } else {
        if raw < lo {
            lo
        } else {
            raw
        }
    }
}

/// The span of the position just past the end of the source.
pub open spec fn end_span(id: CacheId, end: usize) -> CacheSpan {
    CacheSpan { id, start: end, end }
}

/// An atom: a literal, an identifier (variable or call), a prefixed `-` or
/// `!` (binding tighter than any binary operator), or a parenthesized
/// expression.
pub open spec fn sp_atom(t: Seq<TokItem>, id: CacheId, end: usize, i: int) -> (Result<
    NodeV<ExprV>,
    PErrV,
>, int)
    decreases t.len() - i, 2int,
    when 0 <= i <= t.len()
{
    if i >= t.len() {
        (Err(PErrV::UnexpectedEnd { data: end_span(id, end) }), i)
    } else {
        match t[i] {
            Err(e) => (Err(e@), i + 1),
            Ok((tok, sp)) => match tok {
                Token::Nil => (Ok(NodeV { span: sp, item: ExprV::Nil }), i + 1),
                Token::Bool(b) => (Ok(NodeV { span: sp, item: ExprV::Bool(b) }), i + 1),
                Token::Int(text) => if text@.len() >= 1 && all_digits(text@) {
                    (Ok(NodeV { span: sp, item: ExprV::Int(dec_val(text@)) }), i + 1)
                } else {
                    (
                        Err(
                            PErrV::ParseNum {
                                error: if text@.len() == 0 {
                                    NumParseError::NoDigits
                                } else {
                                    NumParseError::InvalidDigit
                                },
                                data: sp,
                            },
                        ),
                        i + 1,
                    )
                },
                Token::UFloat(text) => if is_float_text(text@) {
                    (Ok(NodeV { span: sp, item: ExprV::Float(dec_of_text(text@)) }), i + 1)
                } else {
                    (
                        Err(PErrV::ParseNum { error: NumParseError::InvalidDigit, data: sp }),
                        i + 1,
                    )
                },
                Token::String(text) => (Ok(NodeV { span: sp, item: ExprV::Str(text@) }), i + 1),
                Token::Ident(text) => sp_var_or_fn(
                    t,
                    id,
                    end,
                    NodeV { span: sp, item: text@ },
                    i + 1,
                ),
                Token::Not => {
                    let (a, ja) = sp_atom(t, id, end, i + 1);
                    match a {
                        Err(e) => (Err(e), ja),
                        Ok(n) => (
                            Ok(
                                NodeV {
                                    span: CacheSpan { id, start: sp.start, end: n.span.end },
                                    item: ExprV::Unary(UnaryOpType::Not, Box::new(n)),
                                },
                            ),
                            ja,
                        ),
                    }
                },
                Token::Sub => {
                    let (a, ja) = sp_atom(t, id, end, i + 1);
                    match a {
                        Err(e) => (Err(e), ja),
                        Ok(n) => (
                            Ok(
                                NodeV {
                                    span: CacheSpan { id, start: sp.start, end: n.span.end },
                                    item: ExprV::Unary(UnaryOpType::Neg, Box::new(n)),
                                },
                            ),
                            ja,
                        ),
                    }
                },
                Token::OpenParen => {
                    let (a, ja) = sp_parse(t, id, end, i + 1);
                    match a {
                        Err(e) => (Err(e), ja),
                        Ok(n) => {
                            let j = clip(i + 1, t.len() as int, ja);
                            if j >= t.len() {
                                (Err(PErrV::UnclosedBrace { data: sp }), j)
                            } else {
                                match t[j] {
                                    Err(e) => (Err(e@), j + 1),
                                    Ok((tok2, sp2)) => match tok2 {
                                        Token::CloseParen => (
                                            Ok(
                                                NodeV {
                                                    span: CacheSpan {
                                                        id,
                                                        start: sp.start,
                                                        end: sp2.end,
                                                    },
                                                    item: n.item,
                                                },
                                            ),
                                            j + 1,
                                        ),
                                        _ => (Err(PErrV::UnclosedBrace { data: sp }), j + 1),
                                    },
                                }
                            }
                        },
                    }
                },
                _ => (Err(PErrV::UnexpectedToken { data: sp }), i + 1),
            },
        }
    }
}

/// An identifier just consumed: a bare variable, or — on an opening
/// parenthesis — a call with its argument list.
pub open spec fn sp_var_or_fn(
    t: Seq<TokItem>,
    id: CacheId,
    end: usize,
    lhs: NodeV<Seq<char>>,
    i: int,
) -> (Result<NodeV<ExprV>, PErrV>, int)
    decreases t.len() - i, 1int,
    when 0 <= i <= t.len()
{
    if i >= t.len() {
        (Ok(NodeV { span: lhs.span, item: ExprV::Var(lhs.item) }), i)
    } else {
        match t[i] {
            Err(e) => (Err(e@), i + 1),
            Ok((tok, _)) => match tok {
                Token::OpenParen => {
                    let j0 = i + 1;
                    let after = if j0 >= t.len() {
                        (Err(PErrV::UnexpectedEnd { data: end_span(id, end) }), j0)
                    } else {
                        match t[j0] {
                            Err(e) => (Err(e@), j0),
                            Ok((tok2, _)) => match tok2 {
                                Token::CloseParen => (Ok(Seq::<NodeV<ExprV>>::empty()), j0),
                                _ => sp_call_args(t, id, end, j0, Seq::empty()),
                            },
                        }
                    };
                    match after {
                        (Err(e), q) => (Err(e), q),
                        (Ok(args), q0) => {
                            let q = clip(j0, t.len() as int, q0);
                            if q >= t.len() {
                                (Err(PErrV::UnexpectedEnd { data: end_span(id, end) }), q)
                            } else {
                                match t[q] {
                                    Err(e) => (Err(e@), q + 1),
                                    Ok((tok3, sp3)) => match tok3 {
                                        Token::CloseParen => (
                                            Ok(
                                                NodeV {
                                                    span: CacheSpan {
                                                        id,
                                                        start: lhs.span.start,
                                                        end: sp3.end,
                                                    },
                                                    item: ExprV::Call(lhs, args),
                                                },
                                            ),
                                            q + 1,
                                        ),
                                        _ => (
                                            Err(PErrV::UnexpectedToken { data: sp3 }),
                                            q + 1,
                                        ),
                                    },
                                }
                            }
                        },
                    }
                },
                _ => (Ok(NodeV { span: lhs.span, item: ExprV::Var(lhs.item) }), i),
            },
        }
    }
}

/// The comma-separated argument expressions of a call, from one argument's
/// start; stops before the token that ends the list.
pub open spec fn sp_call_args(
    t: Seq<TokItem>,
    id: CacheId,
    end: usize,
    i: int,
    acc: Seq<NodeV<ExprV>>,
) -> (Result<Seq<NodeV<ExprV>>, PErrV>, int)
    decreases t.len() - i, 13int,
    when 0 <= i <= t.len()
{
    let (p, jp) = sp_parse(t, id, end, i);
    match p {
        Err(e) => (Err(e), jp),
        Ok(n) => {
            let j = clip(i + 1, t.len() as int, jp);
            if j >= t.len() {
                (Err(PErrV::UnexpectedEnd { data: end_span(id, end) }), j)
            } else {
                match t[j] {
                    Err(e) => (Err(e@), j),
                    Ok((tok, _)) => match tok {
                        Token::Comma => sp_call_args(t, id, end, j + 1, acc.push(n)),
                        _ => (Ok(acc.push(n)), j),
                    },
                }
            }
        },
    }
}

/// The power tier (`**`), right-associative.
pub open spec fn sp_powers(
    t: Seq<TokItem>,
    id: CacheId,
    end: usize,
    lhs: NodeV<ExprV>,
    i: int,
) -> (Result<NodeV<ExprV>, PErrV>, int)
    decreases t.len() - i, 3int,
    when 0 <= i <= t.len()
{
    if i >= t.len() {
        (Ok(lhs), i)
    } else {
        match t[i] {
            Err(e) => (Err(e@), i + 1),
            Ok((tok, _)) => match tok {
                Token::Pow => {
                    let (a, ja) = sp_atom(t, id, end, i + 1);
                    match a {
                        Err(e) => (Err(e), ja),
                        Ok(rhs0) => {
                            let j = clip(i + 2, t.len() as int, ja);
                            let (b, jb) = sp_powers(t, id, end, rhs0, j);
                            match b {
                                Err(e) => (Err(e), jb),
                                Ok(rhs) => (
                                    Ok(
                                        NodeV {
                                            span: CacheSpan {
                                                id,
                                                start: lhs.span.start,
                                                end: rhs.span.end,
                                            },
                                            item: ExprV::Binary(
                                                BinaryOpType::Pow,
                                                Box::new(lhs),
                                                Box::new(rhs),
                                            ),
                                        },
                                    ),
                                    jb,
                                ),
                            }
                        },
                    }
                },
                _ => (Ok(lhs), i),
            },
        }
    }
}

/// Which product operator a token selects.
pub open spec fn product_op(tok: Token) -> Option<BinaryOpType> {
    match tok {
        Token::Mul => Some(BinaryOpType::Mul),
        Token::Div => Some(BinaryOpType::Div),
        Token::Mod => Some(BinaryOpType::Mod),
        _ => None,
    }
}

/// Which sum operator a token selects.
pub open spec fn sum_op(tok: Token) -> Option<BinaryOpType> {
    match tok {
        Token::Add => Some(BinaryOpType::Add),
        Token::Sub => Some(BinaryOpType::Sub),
        _ => None,
    }
}

/// Which comparison operator a token selects.
pub open spec fn comparison_op(tok: Token) -> Option<BinaryOpType> {
    match tok {
        Token::Eq => Some(BinaryOpType::Eq),
        Token::Lt => Some(BinaryOpType::Lt),
        Token::Gt => Some(BinaryOpType::Gt),
        Token::NEq => Some(BinaryOpType::NEq),
        Token::LtEq => Some(BinaryOpType::LtEq),
        Token::GtEq => Some(BinaryOpType::GtEq),
        _ => None,
    }
}

/// The product tier (`*`, `/`, `%`): after one product is built, parsing
/// re-enters at the loosest tier with it as the left operand.
pub open spec fn sp_products(t: Seq<TokItem>, id: CacheId, end: usize, lhs: NodeV<ExprV>, i: int) -> (
    Result<NodeV<ExprV>, PErrV>,
    int,
)
    decreases t.len() - i, 4int,
    when 0 <= i <= t.len()
{
    if i >= t.len() {
        (sp_powers(t, id, end, lhs, i))
    } else {
        match t[i] {
            Err(e) => (Err(e@), i + 1),
            Ok((tok, _)) => match product_op(tok) {
                None => sp_powers(t, id, end, lhs, i),
                Some(op) => {
                    let (a, ja) = sp_atom(t, id, end, i + 1);
                    match a {
                        Err(e) => (Err(e), ja),
                        Ok(rhs0) => {
                            let j = clip(i + 2, t.len() as int, ja);
                            let (b, jb) = sp_powers(t, id, end, rhs0, j);
                            match b {
                                Err(e) => (Err(e), jb),
                                Ok(rhs) => {
                                    let node = NodeV {
                                        span: CacheSpan {
                                            id,
                                            start: lhs.span.start,
                                            end: rhs.span.end,
                                        },
                                        item: ExprV::Binary(op, Box::new(lhs), Box::new(rhs)),
                                    };
                                    sp_with_lhs(
                                        t,
                                        id,
                                        end,
                                        node,
                                        clip(i + 2, t.len() as int, jb),
                                    )
                                },
                            }
                        },
                    }
                },
            },
        }
    }
}


/// The sum tier (`+`, `-`).
pub open spec fn sp_sums(t: Seq<TokItem>, id: CacheId, end: usize, lhs: NodeV<ExprV>, i: int) -> (
    Result<NodeV<ExprV>, PErrV>,
    int,
)
    decreases t.len() - i, 5int,
    when 0 <= i <= t.len()
{
    if i >= t.len() {
        (sp_products(t, id, end, lhs, i))
    } else {
        match t[i] {
            Err(e) => (Err(e@), i + 1),
            Ok((tok, _)) => match sum_op(tok) {
                None => sp_products(t, id, end, lhs, i),
                Some(op) => {
                    let (a, ja) = sp_atom(t, id, end, i + 1);
                    match a {
                        Err(e) => (Err(e), ja),
                        Ok(rhs0) => {
                            let j = clip(i + 2, t.len() as int, ja);
                            let (b, jb) = sp_products(t, id, end, rhs0, j);
                            match b {
                                Err(e) => (Err(e), jb),
                                Ok(rhs) => {
                                    let node = NodeV {
                                        span: CacheSpan {
                                            id,
                                            start: lhs.span.start,
                                            end: rhs.span.end,
                                        },
                                        item: ExprV::Binary(op, Box::new(lhs), Box::new(rhs)),
                                    };
                                    sp_with_lhs(
                                        t,
                                        id,
                                        end,
                                        node,
                                        clip(i + 2, t.len() as int, jb),
                                    )
                                },
                            }
                        },
                    }
                },
            },
        }
    }
}


/// The comparison tier: after one comparison is built this same tier is
/// re-entered with the new node as the left operand, so `a < b < c` parses
/// as `(a < b) < c`.
pub open spec fn sp_comparisons(t: Seq<TokItem>, id: CacheId, end: usize, lhs: NodeV<ExprV>, i: int) -> (
    Result<NodeV<ExprV>, PErrV>,
    int,
)
    decreases t.len() - i, 6int,
    when 0 <= i <= t.len()
{
    if i >= t.len() {
        (sp_sums(t, id, end, lhs, i))
    } else {
        match t[i] {
            Err(e) => (Err(e@), i + 1),
            Ok((tok, _)) => match comparison_op(tok) {
                None => sp_sums(t, id, end, lhs, i),
                Some(op) => {
                    let (a, ja) = sp_atom(t, id, end, i + 1);
                    match a {
                        Err(e) => (Err(e), ja),
                        Ok(rhs0) => {
                            let j = clip(i + 2, t.len() as int, ja);
                            let (b, jb) = sp_sums(t, id, end, rhs0, j);
                            match b {
                                Err(e) => (Err(e), jb),
                                Ok(rhs) => {
                                    let node = NodeV {
                                        span: CacheSpan {
                                            id,
                                            start: lhs.span.start,
                                            end: rhs.span.end,
                                        },
                                        item: ExprV::Binary(op, Box::new(lhs), Box::new(rhs)),
                                    };
                                    sp_comparisons(
                                        t,
                                        id,
                                        end,
                                        node,
                                        clip(i + 2, t.len() as int, jb),
                                    )
                                },
                            }
                        },
                    }
                },
            },
        }
    }
}


/// The logical-and tier.
pub open spec fn sp_ands(t: Seq<TokItem>, id: CacheId, end: usize, lhs: NodeV<ExprV>, i: int) -> (
    Result<NodeV<ExprV>, PErrV>,
    int,
)
    decreases t.len() - i, 7int,
    when 0 <= i <= t.len()
{
    if i >= t.len() {
        sp_comparisons(t, id, end, lhs, i)
    } else {
        match t[i] {
            Err(e) => (Err(e@), i + 1),
            Ok((tok, _)) => match tok {
                Token::And => {
                    let (a, ja) = sp_atom(t, id, end, i + 1);
                    match a {
                        Err(e) => (Err(e), ja),
                        Ok(rhs0) => {
                            let j = clip(i + 2, t.len() as int, ja);
                            let (b, jb) = sp_comparisons(t, id, end, rhs0, j);
                            match b {
                                Err(e) => (Err(e), jb),
                                Ok(rhs) => {
                                    let node = NodeV {
                                        span: CacheSpan {
                                            id,
                                            start: lhs.span.start,
                                            end: rhs.span.end,
                                        },
                                        item: ExprV::Binary(
                                            BinaryOpType::And,
                                            Box::new(lhs),
                                            Box::new(rhs),
                                        ),
                                    };
                                    sp_with_lhs(t, id, end, node, clip(i + 2, t.len() as int, jb))
                                },
                            }
                        },
                    }
                },
                _ => sp_comparisons(t, id, end, lhs, i),
            },
        }
    }
}


/// The logical-or tier.
pub open spec fn sp_ors(t: Seq<TokItem>, id: CacheId, end: usize, lhs: NodeV<ExprV>, i: int) -> (
    Result<NodeV<ExprV>, PErrV>,
    int,
)
    decreases t.len() - i, 8int,
    when 0 <= i <= t.len()
{
    if i >= t.len() {
        sp_ands(t, id, end, lhs, i)
    } else {
        match t[i] {
            Err(e) => (Err(e@), i + 1),
            Ok((tok, _)) => match tok {
                Token::Or => {
                    let (a, ja) = sp_atom(t, id, end, i + 1);
                    match a {
                        Err(e) => (Err(e), ja),
                        Ok(rhs0) => {
                            let j = clip(i + 2, t.len() as int, ja);
                            let (b, jb) = sp_ands(t, id, end, rhs0, j);
                            match b {
                                Err(e) => (Err(e), jb),
                                Ok(rhs) => {
                                    let node = NodeV {
                                        span: CacheSpan {
                                            id,
                                            start: lhs.span.start,
                                            end: rhs.span.end,
                                        },
                                        item: ExprV::Binary(
                                            BinaryOpType::Or,
                                            Box::new(lhs),
                                            Box::new(rhs),
                                        ),
                                    };
                                    sp_with_lhs(t, id, end, node, clip(i + 2, t.len() as int, jb))
                                },
                            }
                        },
                    }
                },
                _ => sp_ands(t, id, end, lhs, i),
            },
        }
    }
}


/// The ternary tier (`cond ? a : b`), right-associative; a missing `:` after
/// a matched `?` is an unexpected-token error naming the delimiter.
pub open spec fn sp_ternaries(
    t: Seq<TokItem>,
    id: CacheId,
    end: usize,
    lhs: NodeV<ExprV>,
    i: int,
) -> (Result<NodeV<ExprV>, PErrV>, int)
    decreases t.len() - i, 9int,
    when 0 <= i <= t.len()
{
    if i >= t.len() {
        sp_ors(t, id, end, lhs, i)
    } else {
        match t[i] {
            Err(e) => (Err(e@), i + 1),
            Ok((tok, _)) => match tok {
                Token::Question => {
                    let (a, ja) = sp_atom(t, id, end, i + 1);
                    match a {
                        Err(e) => (Err(e), ja),
                        Ok(tc0) => {
                            let j = clip(i + 2, t.len() as int, ja);
                            let (b, jb) = sp_ternaries(t, id, end, tc0, j);
                            match b {
                                Err(e) => (Err(e), jb),
                                Ok(tc) => {
                                    let j2 = clip(i + 2, t.len() as int, jb);
                                    if j2 >= t.len() {
                                        (
                                            Err(
                                                PErrV::UnexpectedEnd { data: end_span(id, end) },
                                            ),
                                            j2,
                                        )
                                    } else {
                                        match t[j2] {
                                            Err(e) => (Err(e@), j2 + 1),
                                            Ok((tok2, sp2)) => match tok2 {
                                                Token::Colon => {
                                                    let (c, jc) = sp_atom(t, id, end, j2 + 1);
                                                    match c {
                                                        Err(e) => (Err(e), jc),
                                                        Ok(fc0) => {
                                                            let j3 = clip(
                                                                j2 + 2,
                                                                t.len() as int,
                                                                jc,
                                                            );
                                                            let (d, jd) = sp_ternaries(
                                                                t,
                                                                id,
                                                                end,
                                                                fc0,
                                                                j3,
                                                            );
                                                            match d {
                                                                Err(e) => (Err(e), jd),
                                                                Ok(fc) => (
                                                                    Ok(
                                                                        NodeV {
                                                                            span: CacheSpan {
                                                                                id,
                                                                                start:
                                                                                    lhs.span.start,
                                                                                end: fc.span.end,
                                                                            },
                                                                            item: ExprV::Ternary(
                                                                                Box::new(lhs),
                                                                                Box::new(tc),
                                                                                Box::new(fc),
                                                                            ),
                                                                        },
                                                                    ),
                                                                    jd,
                                                                ),
                                                            }
                                                        },
                                                    }
                                                },
                                                _ => (
                                                    Err(PErrV::UnexpectedToken { data: sp2 }),
                                                    j2 + 1,
                                                ),
                                            },
                                        }
                                    }
                                },
                            }
                        },
                    }
                },
                _ => sp_ors(t, id, end, lhs, i),
            },
        }
    }
}

/// The assignment tier (`=`, `:=`), right-associative and the loosest
/// binding: the left side must already have reduced to a bare variable
/// reference, else the error is pinned to the operator's span.
pub open spec fn sp_assign(
    t: Seq<TokItem>,
    id: CacheId,
    end: usize,
    lhs: NodeV<ExprV>,
    i: int,
) -> (Result<NodeV<ExprV>, PErrV>, int)
    decreases t.len() - i, 10int,
    when 0 <= i <= t.len()
{
    if i >= t.len() {
        sp_ternaries(t, id, end, lhs, i)
    } else {
        match t[i] {
            Err(e) => (Err(e@), i + 1),
            Ok((tok, asp)) => if !(tok is Assign) && !(tok is Walrus) {
                sp_ternaries(t, id, end, lhs, i)
            } else {
                match lhs.item {
                    ExprV::Var(name) => {
                        let target = NodeV { span: lhs.span, item: name };
                        let (a, ja) = sp_atom(t, id, end, i + 1);
                        match a {
                            Err(e) => (Err(e), ja),
                            Ok(rhs0) => {
                                let j = clip(i + 2, t.len() as int, ja);
                                let (b, jb) = sp_assign(t, id, end, rhs0, j);
                                match b {
                                    Err(e) => (Err(e), jb),
                                    Ok(rhs) => (
                                        Ok(
                                            NodeV {
                                                span: CacheSpan {
                                                    id,
                                                    start: target.span.start,
                                                    end: rhs.span.end,
                                                },
                                                item: if tok is Walrus {
                                                    ExprV::Walrus(target, Box::new(rhs))
                                                } else {
                                                    ExprV::Assign(target, Box::new(rhs))
                                                },
                                            },
                                        ),
                                        jb,
                                    ),
                                }
                            },
                        }
                    },
                    _ => (Err(PErrV::InvalidAssignment { data: asp }), i + 1),
                }
            },
        }
    }
}

/// Parsing continued after an already-built left operand, from the loosest
/// tier.
pub open spec fn sp_with_lhs(
    t: Seq<TokItem>,
    id: CacheId,
    end: usize,
    lhs: NodeV<ExprV>,
    i: int,
) -> (Result<NodeV<ExprV>, PErrV>, int)
    decreases t.len() - i, 11int,
    when 0 <= i <= t.len()
{
    sp_assign(t, id, end, lhs, i)
}

/// A stand-alone expression: an atom, then every tier above it.
pub open spec fn sp_parse(t: Seq<TokItem>, id: CacheId, end: usize, i: int) -> (Result<
    NodeV<ExprV>,
    PErrV,
>, int)
    decreases t.len() - i, 12int,
    when 0 <= i <= t.len()
{
    let (a, ja) = sp_atom(t, id, end, i);
    match a {
        Err(e) => (Err(e), ja),
        Ok(lhs) => sp_with_lhs(t, id, end, lhs, clip(i + 1, t.len() as int, ja)),
    }
}

// ---------------------------------------------------------------------------
// The recursive-descent expression parser: one function per precedence tier,
// loosest binding first, each parsing its left operand from the next-tighter
// tier. Every function only peeks at or takes the next token, never looks
// back, and never moves the cursor backwards; whatever it builds holds only
// canonical integer literals.
// ---------------------------------------------------------------------------
/// Builds the binary expression node for an operator tag.
fn bin_expr(op: BinaryOpType, lhs: Node<Expr>, rhs: Node<Expr>) -> (r: Expr)
    requires
        expr_wf(&lhs.item),
        expr_wf(&rhs.item),
    ensures
        expr_wf(&r),
        expr_view(&r) == ExprV::Binary(op, Box::new(lhs@), Box::new(rhs@)),
{
    match op {
        BinaryOpType::Add => Expr::Add(Box::new(lhs), Box::new(rhs)),
        BinaryOpType::Sub => Expr::Sub(Box::new(lhs), Box::new(rhs)),
        BinaryOpType::Mul => Expr::Mul(Box::new(lhs), Box::new(rhs)),
        BinaryOpType::Div => Expr::Div(Box::new(lhs), Box::new(rhs)),
        BinaryOpType::Mod => Expr::Mod(Box::new(lhs), Box::new(rhs)),
        BinaryOpType::Pow => Expr::Pow(Box::new(lhs), Box::new(rhs)),
        BinaryOpType::Eq => Expr::Eq(Box::new(lhs), Box::new(rhs)),
        BinaryOpType::Lt => Expr::Lt(Box::new(lhs), Box::new(rhs)),
        BinaryOpType::Gt => Expr::Gt(Box::new(lhs), Box::new(rhs)),
        BinaryOpType::NEq => Expr::NEq(Box::new(lhs), Box::new(rhs)),
        BinaryOpType::LtEq => Expr::LtEq(Box::new(lhs), Box::new(rhs)),
        BinaryOpType::GtEq => Expr::GtEq(Box::new(lhs), Box::new(rhs)),
        BinaryOpType::And => Expr::And(Box::new(lhs), Box::new(rhs)),
        BinaryOpType::Or => Expr::Or(Box::new(lhs), Box::new(rhs)),
    }
}

impl Expr {
    /// An integer literal: a non-empty all-digit text parses to its decimal
    /// value; anything else is an invalid-numeric-literal error.
    fn parse_int(span: CacheSpan, text: &str) -> (r: PResult<Node<Expr>>)
        ensures
            match r {
                Ok(n) => {
                    &&& text@.len() >= 1
                    &&& all_digits(text@)
                    &&& n.span == span
                    &&& expr_wf(&n.item)
                    &&& expr_view(&n.item) == ExprV::Int(dec_val(text@))
                },
                Err(e) => !(text@.len() >= 1 && all_digits(text@)) && e@ == (PErrV::ParseNum {
                    error: if text@.len() == 0 {
                        NumParseError::NoDigits
                    } else {
                        NumParseError::InvalidDigit
                    },
                    data: span,
                }),
            },
    {
        if text.unicode_len() == 0 {
            return Err(PError::ParseNumError { error: NumParseError::NoDigits, data: span });
        }
        if !text_all_digits(text) {
            return Err(PError::ParseNumError { error: NumParseError::InvalidDigit, data: span });
        }
        Ok(Node::new(span, Expr::Int(int_parse(text))))
    }

    /// A decimal literal: digits with an optional point parse to the decimal
    /// the text denotes; anything else is an invalid-numeric-literal error.
    fn parse_float(span: CacheSpan, text: &str) -> (r: PResult<Node<Expr>>)
        ensures
            match r {
                Ok(n) => {
                    &&& is_float_text(text@)
                    &&& n.span == span
                    &&& expr_wf(&n.item)
                    &&& expr_view(&n.item) == ExprV::Float(dec_of_text(text@))
                },
                Err(e) => !is_float_text(text@) && e@ == (PErrV::ParseNum {
                    error: NumParseError::InvalidDigit,
                    data: span,
                }),
            },
    {
        if !text_is_float(text) {
            return Err(PError::ParseNumError { error: NumParseError::InvalidDigit, data: span });
        }
        Ok(Node::new(span, Expr::Float(dec_parse(text))))
    }

    /// A stand-alone expression: an atom, then every operator tier above it.
    #[verifier::rlimit(100)]
    #[verifier::spinoff_prover]
    pub fn parse(tokens: &mut TokenStream) -> (r: PResult<Node<Expr>>)
        requires
            old(tokens).wf(),
        ensures
            final(tokens).wf(),
            final(tokens).advanced_from(old(tokens)@),
            r matches Ok(n) ==> expr_wf(&n.item) && final(tokens)@.pos > old(tokens)@.pos && (
            old(tokens)@.toks[old(tokens)@.pos] matches Ok(first) ==> n.span.start
                == first.1.start),
            ({
                let (so, sn) = sp_parse(
                    old(tokens)@.toks,
                    old(tokens)@.id,
                    old(tokens)@.end,
                    old(tokens)@.pos,
                );
                expr_res_view(r) == so && final(tokens)@.pos == sn
            }),
        decreases old(tokens).remaining(), 12int,
    {
        let lhs = match Self::parse_atom(tokens) {
            Ok(n) => n,
            Err(e) => {
                return Err(e);
            },
        };
        Self::parse_with_lhs(lhs, tokens)
    }

    /// Continues parsing after an already-built left operand, starting at the
    /// loosest-binding tier.
    #[verifier::rlimit(100)]
    #[verifier::spinoff_prover]
    pub fn parse_with_lhs(lhs: Node<Expr>, tokens: &mut TokenStream) -> (r: PResult<Node<Expr>>)
        requires
            old(tokens).wf(),
            expr_wf(&lhs.item),
        ensures
            final(tokens).wf(),
            final(tokens).advanced_from(old(tokens)@),
            r matches Ok(n) ==> expr_wf(&n.item) && n.span.start == lhs.span.start,
            ({
                let (so, sn) = sp_with_lhs(
                    old(tokens)@.toks,
                    old(tokens)@.id,
                    old(tokens)@.end,
                    lhs@,
                    old(tokens)@.pos,
                );
                expr_res_view(r) == so && final(tokens)@.pos == sn
            }),
        decreases old(tokens).remaining(), 11int,
    {
        Self::parse_assign(lhs, tokens)
    }

    /// An identifier just consumed: a bare variable reference, or — when an
    /// opening parenthesis follows — a call with a comma-separated, possibly
    /// empty, argument list.
    #[verifier::rlimit(100)]
    #[verifier::spinoff_prover]
    #[verifier::loop_isolation(false)]
    pub fn parse_var_or_fn(lhs: Node<String>, tokens: &mut TokenStream) -> (r: PResult<Node<Expr>>)
        requires
            old(tokens).wf(),
        ensures
            final(tokens).wf(),
            final(tokens).advanced_from(old(tokens)@),
            r matches Ok(n) ==> expr_wf(&n.item) && n.span.start == lhs.span.start,
            ({
                let (so, sn) = sp_var_or_fn(
                    old(tokens)@.toks,
                    old(tokens)@.id,
                    old(tokens)@.end,
                    lhs@,
                    old(tokens)@.pos,
                );
                expr_res_view(r) == so && final(tokens)@.pos == sn
            }),
        decreases old(tokens).remaining(), 1int,
    {
        let start = lhs.span.start;
        match tokens.peek() {
            Some(Err(_)) => {
                let e = match tokens.next() {
                    Some(Err(e)) => e,
                    _ => {
                        return Err(PError::UnclosedBrace { data: lhs.span });
                    },
                };
                Err(e)
            },
            Some(Ok((Token::OpenParen, _))) => {
                tokens.next();
                let ghost toks = tokens@.toks;
                let ghost sid = tokens@.id;
                let ghost send = tokens@.end;
                let ghost j0 = tokens@.pos;
                let mut params: Vec<Node<Expr>> = Vec::new();
                proof {
                    assert(crate::parser::expr::expr_nodes_view(params@) =~= Seq::<
                        NodeV<ExprV>,
                    >::empty());
                }
                let stop = match tokens.expect_peek("expression or ')'") {
                    Ok((Token::CloseParen, _)) => true,
                    Ok(_) => false,
                    Err(e) => {
                        return Err(e);
                    },
                };
                if !stop {
                    loop
                        invariant
                            tokens.wf(),
                            tokens.advanced_from(old(tokens)@),
                            tokens@.pos >= j0,
                            j0 >= 0,
                            sp_call_args(toks, sid, send, j0, Seq::empty()) == sp_call_args(
                                toks,
                                sid,
                                send,
                                tokens@.pos,
                                expr_nodes_view(params@),
                            ),
                            forall|k: int|
                                0 <= k < params@.len() ==> expr_wf(&(#[trigger] params@[k]).item),
                        decreases tokens.remaining(),
                    {
                        let ghost pre_seq = params@;
                        let ghost pre_params = expr_nodes_view(params@);
                        let ghost pos0 = tokens@.pos;
                        match Self::parse(tokens) {
                            Ok(p) => {
                                let ghost pv = p@;
                                params.push(p);
                                proof {
                                    assert(params@.drop_last() =~= pre_seq);
                                    assert(params@.last() == params@[pre_seq.len() as int]);
                                    assert(expr_node_view(
                                        &params@.last().item,
                                        params@.last().span,
                                    ) == pv);
                                    assert(expr_nodes_view(params@) =~= pre_params.push(pv));
                                }
                            },
                            Err(e) => {
                                return Err(e);
                            },
                        }
                        proof {
                            assert(tokens@.pos > pos0);
                        }
                        match tokens.expect_peek("',' or ')'") {
                            Ok((Token::Comma, _)) => {
                                tokens.next();
                            },
                            Ok(_) => {
                                break ;
                            },
                            Err(e) => {
                                return Err(e);
                            },
                        }
                    }
                }
                let end = match tokens.expect_next("')'") {
                    Ok((Token::CloseParen, sp)) => sp.end,
                    Ok((tok, sp)) => {
                        return Err(
                            PError::UnexpectedToken {
                                expected: String::from_str("')'"),
                                found: token_text(&tok),
                                data: sp,
                            },
                        );
                    },
                    Err(e) => {
                        return Err(e);
                    },
                };
                let span = tokens.span(start..end);
                proof {
                    lemma_exprs_wf_intro(params@);
                }
                Ok(Node::new(span, Expr::Call(lhs, params)))
            },
            _ => Ok(Node::new(lhs.span, Expr::Var(lhs.item))),
        }
    }

    /// An atom: a literal, an identifier (variable or call), a prefixed `-`
    /// or `!`, or a parenthesized expression.
    #[verifier::rlimit(100)]
    #[verifier::spinoff_prover]
    pub fn parse_atom(tokens: &mut TokenStream) -> (r: PResult<Node<Expr>>)
        requires
            old(tokens).wf(),
        ensures
            final(tokens).wf(),
            final(tokens).advanced_from(old(tokens)@),
            r matches Ok(n) ==> expr_wf(&n.item) && final(tokens)@.pos > old(tokens)@.pos && (
            old(tokens)@.toks[old(tokens)@.pos] matches Ok(first) ==> n.span.start
                == first.1.start),
            ({
                let (so, sn) = sp_atom(
                    old(tokens)@.toks,
                    old(tokens)@.id,
                    old(tokens)@.end,
                    old(tokens)@.pos,
                );
                expr_res_view(r) == so && final(tokens)@.pos == sn
            }),
        decreases old(tokens).remaining(), 2int,
    {
        let (tok, span) = match tokens.expect_next("expression") {
            Ok(p) => p,
            Err(e) => {
                return Err(e);
            },
        };
        match tok {
            Token::Nil => Ok(Node::new(span, Expr::Nil)),
            Token::Int(text) => Self::parse_int(span, text.as_str()),
            Token::UFloat(text) => Self::parse_float(span, text.as_str()),
            Token::Bool(b) => Ok(Node::new(span, Expr::Bool(b))),
            Token::String(text) => Ok(Node::new(span, Expr::String(text))),
            Token::Ident(text) => {
                let ident = Node::new(span, text);
                Self::parse_var_or_fn(ident, tokens)
            },
            Token::Not => {
                let nested = match Self::parse_atom(tokens) {
                    Ok(n) => n,
                    Err(e) => {
                        return Err(e);
                    },
                };
                let full = tokens.span(span.start..nested.span.end);
                Ok(Node::new(full, Expr::Not(Box::new(nested))))
            },
            Token::Sub => {
                let nested = match Self::parse_atom(tokens) {
                    Ok(n) => n,
                    Err(e) => {
                        return Err(e);
                    },
                };
                let full = tokens.span(span.start..nested.span.end);
                Ok(Node::new(full, Expr::Neg(Box::new(nested))))
            },
            Token::OpenParen => {
                let inner = match Self::parse(tokens) {
                    Ok(n) => n,
                    Err(e) => {
                        return Err(e);
                    },
                };
                match tokens.next() {
                    Some(Err(e)) => Err(e),
                    Some(Ok((Token::CloseParen, close_span))) => {
                        let full = tokens.span(span.start..close_span.end);
                        Ok(Node::new(full, inner.item))
                    },
                    _ => Err(PError::UnclosedBrace { data: span }),
                }
            },
            other => Err(
                PError::UnexpectedToken {
                    expected: String::from_str("expression"),
                    found: token_text(&other),
                    data: span,
                },
            ),
        }
    }

    /// The power tier (`**`), right-associative.
    #[verifier::rlimit(100)]
    #[verifier::spinoff_prover]
    pub fn parse_powers(lhs: Node<Expr>, tokens: &mut TokenStream) -> (r: PResult<Node<Expr>>)
        requires
            old(tokens).wf(),
            expr_wf(&lhs.item),
        ensures
            final(tokens).wf(),
            final(tokens).advanced_from(old(tokens)@),
            r matches Ok(n) ==> expr_wf(&n.item) && n.span.start == lhs.span.start,
            ({
                let (so, sn) = sp_powers(
                    old(tokens)@.toks,
                    old(tokens)@.id,
                    old(tokens)@.end,
                    lhs@,
                    old(tokens)@.pos,
                );
                expr_res_view(r) == so && final(tokens)@.pos == sn
            }),
        decreases old(tokens).remaining(), 3int,
    {
        match tokens.peek() {
            Some(Ok((Token::Pow, _))) => {},
            Some(Err(_)) => {
                let e = match tokens.next() {
                    Some(Err(e)) => e,
                    _ => {
                        return Err(PError::UnclosedBrace { data: lhs.span });
                    },
                };
                return Err(e);
            },
            _ => {
                return Ok(lhs);
            },
        }
        tokens.next();
        let rhs = match Self::parse_atom(tokens) {
            Ok(n) => n,
            Err(e) => {
                return Err(e);
            },
        };
        let rhs = match Self::parse_powers(rhs, tokens) {
            Ok(n) => n,
            Err(e) => {
                return Err(e);
            },
        };
        let span = tokens.span(lhs.span.start..rhs.span.end);
        Ok(Node::new(span, bin_expr(BinaryOpType::Pow, lhs, rhs)))
    }

    /// The product tier (`*`, `/`, `%`), left-associative.
    #[verifier::rlimit(100)]
    #[verifier::spinoff_prover]
    pub fn parse_products(lhs: Node<Expr>, tokens: &mut TokenStream) -> (r: PResult<Node<Expr>>)
        requires
            old(tokens).wf(),
            expr_wf(&lhs.item),
        ensures
            final(tokens).wf(),
            final(tokens).advanced_from(old(tokens)@),
            r matches Ok(n) ==> expr_wf(&n.item) && n.span.start == lhs.span.start,
            ({
                let (so, sn) = sp_products(
                    old(tokens)@.toks,
                    old(tokens)@.id,
                    old(tokens)@.end,
                    lhs@,
                    old(tokens)@.pos,
                );
                expr_res_view(r) == so && final(tokens)@.pos == sn
            }),
        decreases old(tokens).remaining(), 4int,
    {
        let op = match tokens.peek() {
            Some(Ok((Token::Mul, _))) => BinaryOpType::Mul,
            Some(Ok((Token::Div, _))) => BinaryOpType::Div,
            Some(Ok((Token::Mod, _))) => BinaryOpType::Mod,
            Some(Err(_)) => {
                let e = match tokens.next() {
                    Some(Err(e)) => e,
                    _ => {
                        return Err(PError::UnclosedBrace { data: lhs.span });
                    },
                };
                return Err(e);
            },
            _ => {
                return Self::parse_powers(lhs, tokens);
            },
        };
        tokens.next();
        let rhs = match Self::parse_atom(tokens) {
            Ok(n) => n,
            Err(e) => {
                return Err(e);
            },
        };
        let rhs = match Self::parse_powers(rhs, tokens) {
            Ok(n) => n,
            Err(e) => {
                return Err(e);
            },
        };
        let span = tokens.span(lhs.span.start..rhs.span.end);
        let new_lhs = Node::new(span, bin_expr(op, lhs, rhs));
        Self::parse_with_lhs(new_lhs, tokens)
    }

    /// The sum tier (`+`, `-`), left-associative.
    #[verifier::rlimit(100)]
    #[verifier::spinoff_prover]
    pub fn parse_sums(lhs: Node<Expr>, tokens: &mut TokenStream) -> (r: PResult<Node<Expr>>)
        requires
            old(tokens).wf(),
            expr_wf(&lhs.item),
        ensures
            final(tokens).wf(),
            final(tokens).advanced_from(old(tokens)@),
            r matches Ok(n) ==> expr_wf(&n.item) && n.span.start == lhs.span.start,
            ({
                let (so, sn) = sp_sums(
                    old(tokens)@.toks,
                    old(tokens)@.id,
                    old(tokens)@.end,
                    lhs@,
                    old(tokens)@.pos,
                );
                expr_res_view(r) == so && final(tokens)@.pos == sn
            }),
        decreases old(tokens).remaining(), 5int,
    {
        let op = match tokens.peek() {
            Some(Ok((Token::Add, _))) => BinaryOpType::Add,
            Some(Ok((Token::Sub, _))) => BinaryOpType::Sub,
            Some(Err(_)) => {
                let e = match tokens.next() {
                    Some(Err(e)) => e,
                    _ => {
                        return Err(PError::UnclosedBrace { data: lhs.span });
                    },
                };
                return Err(e);
            },
            _ => {
                return Self::parse_products(lhs, tokens);
            },
        };
        tokens.next();
        let rhs = match Self::parse_atom(tokens) {
            Ok(n) => n,
            Err(e) => {
                return Err(e);
            },
        };
        let rhs = match Self::parse_products(rhs, tokens) {
            Ok(n) => n,
            Err(e) => {
                return Err(e);
            },
        };
        let span = tokens.span(lhs.span.start..rhs.span.end);
        let new_lhs = Node::new(span, bin_expr(op, lhs, rhs));
        Self::parse_with_lhs(new_lhs, tokens)
    }

    /// The comparison tier (`==`, `<`, `>`, `!=`, `<=`, `>=`). After building
    /// one comparison it re-enters this same tier with the new node as the
    /// left operand, so `a < b < c` parses as `(a < b) < c`.
    #[verifier::rlimit(100)]
    #[verifier::spinoff_prover]
    pub fn parse_comparisons(lhs: Node<Expr>, tokens: &mut TokenStream) -> (r: PResult<Node<Expr>>)
        requires
            old(tokens).wf(),
            expr_wf(&lhs.item),
        ensures
            final(tokens).wf(),
            final(tokens).advanced_from(old(tokens)@),
            r matches Ok(n) ==> expr_wf(&n.item) && n.span.start == lhs.span.start,
            ({
                let (so, sn) = sp_comparisons(
                    old(tokens)@.toks,
                    old(tokens)@.id,
                    old(tokens)@.end,
                    lhs@,
                    old(tokens)@.pos,
                );
                expr_res_view(r) == so && final(tokens)@.pos == sn
            }),
        decreases old(tokens).remaining(), 6int,
    {
        let op = match tokens.peek() {
            Some(Ok((Token::Eq, _))) => BinaryOpType::Eq,
            Some(Ok((Token::Lt, _))) => BinaryOpType::Lt,
            Some(Ok((Token::Gt, _))) => BinaryOpType::Gt,
            Some(Ok((Token::NEq, _))) => BinaryOpType::NEq,
            Some(Ok((Token::LtEq, _))) => BinaryOpType::LtEq,
            Some(Ok((Token::GtEq, _))) => BinaryOpType::GtEq,
            Some(Err(_)) => {
                let e = match tokens.next() {
                    Some(Err(e)) => e,
                    _ => {
                        return Err(PError::UnclosedBrace { data: lhs.span });
                    },
                };
                return Err(e);
            },
            _ => {
                return Self::parse_sums(lhs, tokens);
            },
        };
        tokens.next();
        let rhs = match Self::parse_atom(tokens) {
            Ok(n) => n,
            Err(e) => {
                return Err(e);
            },
        };
        let rhs = match Self::parse_sums(rhs, tokens) {
            Ok(n) => n,
            Err(e) => {
                return Err(e);
            },
        };
        let span = tokens.span(lhs.span.start..rhs.span.end);
        let new_lhs = Node::new(span, bin_expr(op, lhs, rhs));
        Self::parse_comparisons(new_lhs, tokens)
    }

    /// The logical-and tier, left-associative.
    #[verifier::rlimit(100)]
    #[verifier::spinoff_prover]
    pub fn parse_ands(lhs: Node<Expr>, tokens: &mut TokenStream) -> (r: PResult<Node<Expr>>)
        requires
            old(tokens).wf(),
            expr_wf(&lhs.item),
        ensures
            final(tokens).wf(),
            final(tokens).advanced_from(old(tokens)@),
            r matches Ok(n) ==> expr_wf(&n.item) && n.span.start == lhs.span.start,
            ({
                let (so, sn) = sp_ands(
                    old(tokens)@.toks,
                    old(tokens)@.id,
                    old(tokens)@.end,
                    lhs@,
                    old(tokens)@.pos,
                );
                expr_res_view(r) == so && final(tokens)@.pos == sn
            }),
        decreases old(tokens).remaining(), 7int,
    {
        match tokens.peek() {
            Some(Ok((Token::And, _))) => {},
            Some(Err(_)) => {
                let e = match tokens.next() {
                    Some(Err(e)) => e,
                    _ => {
                        return Err(PError::UnclosedBrace { data: lhs.span });
                    },
                };
                return Err(e);
            },
            _ => {
                return Self::parse_comparisons(lhs, tokens);
            },
        }
        tokens.next();
        let rhs = match Self::parse_atom(tokens) {
            Ok(n) => n,
            Err(e) => {
                return Err(e);
            },
        };
        let rhs = match Self::parse_comparisons(rhs, tokens) {
            Ok(n) => n,
            Err(e) => {
                return Err(e);
            },
        };
        let span = tokens.span(lhs.span.start..rhs.span.end);
        let new_lhs = Node::new(span, bin_expr(BinaryOpType::And, lhs, rhs));
        Self::parse_with_lhs(new_lhs, tokens)
    }

    /// The logical-or tier, left-associative.
    #[verifier::rlimit(100)]
    #[verifier::spinoff_prover]
    pub fn parse_ors(lhs: Node<Expr>, tokens: &mut TokenStream) -> (r: PResult<Node<Expr>>)
        requires
            old(tokens).wf(),
            expr_wf(&lhs.item),
        ensures
            final(tokens).wf(),
            final(tokens).advanced_from(old(tokens)@),
            r matches Ok(n) ==> expr_wf(&n.item) && n.span.start == lhs.span.start,
            ({
                let (so, sn) = sp_ors(
                    old(tokens)@.toks,
                    old(tokens)@.id,
                    old(tokens)@.end,
                    lhs@,
                    old(tokens)@.pos,
                );
                expr_res_view(r) == so && final(tokens)@.pos == sn
            }),
        decreases old(tokens).remaining(), 8int,
    {
        match tokens.peek() {
            Some(Ok((Token::Or, _))) => {},
            Some(Err(_)) => {
                let e = match tokens.next() {
                    Some(Err(e)) => e,
                    _ => {
                        return Err(PError::UnclosedBrace { data: lhs.span });
                    },
                };
                return Err(e);
            },
            _ => {
                return Self::parse_ands(lhs, tokens);
            },
        }
        tokens.next();
        let rhs = match Self::parse_atom(tokens) {
            Ok(n) => n,
            Err(e) => {
                return Err(e);
            },
        };
        let rhs = match Self::parse_ands(rhs, tokens) {
            Ok(n) => n,
            Err(e) => {
                return Err(e);
            },
        };
        let span = tokens.span(lhs.span.start..rhs.span.end);
        let new_lhs = Node::new(span, bin_expr(BinaryOpType::Or, lhs, rhs));
        Self::parse_with_lhs(new_lhs, tokens)
    }

    /// The ternary tier (`cond ? a : b`), right-associative; a missing `:`
    /// after a matched `?` is an unexpected-token error naming the delimiter.
    #[verifier::rlimit(100)]
    #[verifier::spinoff_prover]
    pub fn parse_ternaries(lhs: Node<Expr>, tokens: &mut TokenStream) -> (r: PResult<Node<Expr>>)
        requires
            old(tokens).wf(),
            expr_wf(&lhs.item),
        ensures
            final(tokens).wf(),
            final(tokens).advanced_from(old(tokens)@),
            r matches Ok(n) ==> expr_wf(&n.item) && n.span.start == lhs.span.start,
            ({
                let (so, sn) = sp_ternaries(
                    old(tokens)@.toks,
                    old(tokens)@.id,
                    old(tokens)@.end,
                    lhs@,
                    old(tokens)@.pos,
                );
                expr_res_view(r) == so && final(tokens)@.pos == sn
            }),
        decreases old(tokens).remaining(), 9int,
    {
        match tokens.peek() {
            Some(Ok((Token::Question, _))) => {},
            Some(Err(_)) => {
                let e = match tokens.next() {
                    Some(Err(e)) => e,
                    _ => {
                        return Err(PError::UnclosedBrace { data: lhs.span });
                    },
                };
                return Err(e);
            },
            _ => {
                return Self::parse_ors(lhs, tokens);
            },
        }
        tokens.next();
        let true_clause = match Self::parse_atom(tokens) {
            Ok(n) => n,
            Err(e) => {
                return Err(e);
            },
        };
        let true_clause = match Self::parse_ternaries(true_clause, tokens) {
            Ok(n) => n,
            Err(e) => {
                return Err(e);
            },
        };
        match tokens.expect_next("ternary delimiter ':'") {
            Ok((Token::Colon, _)) => {},
            Ok((tok, sp)) => {
                return Err(
                    PError::UnexpectedToken {
                        expected: String::from_str("ternary delimiter ':'"),
                        found: token_text(&tok),
                        data: sp,
                    },
                );
            },
            Err(e) => {
                return Err(e);
            },
        }
        let false_clause = match Self::parse_atom(tokens) {
            Ok(n) => n,
            Err(e) => {
                return Err(e);
            },
        };
        let false_clause = match Self::parse_ternaries(false_clause, tokens) {
            Ok(n) => n,
            Err(e) => {
                return Err(e);
            },
        };
        let span = tokens.span(lhs.span.start..false_clause.span.end);
        Ok(
            Node::new(
                span,
                Expr::Ternary(Box::new(lhs), Box::new(true_clause), Box::new(false_clause)),
            ),
        )
    }

    /// The assignment tier (`=`, `:=`), right-associative and the loosest
    /// binding. The left side must already have reduced to a bare variable
    /// reference; anything else is an invalid-assignment-target error pinned
    /// to the operator's span.
    #[verifier::rlimit(100)]
    #[verifier::spinoff_prover]
    pub fn parse_assign(lhs: Node<Expr>, tokens: &mut TokenStream) -> (r: PResult<Node<Expr>>)
        requires
            old(tokens).wf(),
            expr_wf(&lhs.item),
        ensures
            final(tokens).wf(),
            final(tokens).advanced_from(old(tokens)@),
            r matches Ok(n) ==> expr_wf(&n.item) && n.span.start == lhs.span.start,
            ({
                let (so, sn) = sp_assign(
                    old(tokens)@.toks,
                    old(tokens)@.id,
                    old(tokens)@.end,
                    lhs@,
                    old(tokens)@.pos,
                );
                expr_res_view(r) == so && final(tokens)@.pos == sn
            }),
        decreases old(tokens).remaining(), 10int,
    {
        let (walrus, assign_span) = match tokens.peek() {
            Some(Ok((Token::Assign, sp))) => (false, *sp),
            Some(Ok((Token::Walrus, sp))) => (true, *sp),
            Some(Err(_)) => {
                let e = match tokens.next() {
                    Some(Err(e)) => e,
                    _ => {
                        return Err(PError::UnclosedBrace { data: lhs.span });
                    },
                };
                return Err(e);
            },
            _ => {
                return Self::parse_ternaries(lhs, tokens);
            },
        };
        tokens.next();
        let target = match lhs.into_parts() {
            (sp, Expr::Var(name)) => Node::new(sp, name),
            (_, _) => {
                return Err(PError::InvalidAssignment { data: assign_span });
            },
        };
        let rhs = match Self::parse_atom(tokens) {
            Ok(n) => n,
            Err(e) => {
                return Err(e);
            },
        };
        let rhs = match Self::parse_assign(rhs, tokens) {
            Ok(n) => n,
            Err(e) => {
                return Err(e);
            },
        };
        let span = tokens.span(target.span.start..rhs.span.end);
        if walrus {
            Ok(Node::new(span, Expr::Walrus(target, Box::new(rhs))))
        } else {
            Ok(Node::new(span, Expr::Assign(target, Box::new(rhs))))
        }
    }
}

} // verus!
