use crate::cache::{CacheId, CacheSpan};
use crate::parser::error::{PErrV, PError, PResult};
use crate::parser::expr::{
    clip, end_span, expr_node_view, expr_wf, sp_parse, Expr, ExprV,
};
use crate::parser::node::{Node, NodeV};
use crate::parser::token::{TokItem, Token, TokenStream};
use std::rc::Rc;
use vstd::prelude::*;
use vstd::string::StringExecFns;

verus! {

/// A user-defined function: a name, ordered parameter names, and an ordered
/// statement body. It owns no reference to the frame that declared it.
#[derive(Debug)]
pub struct Func {
    pub ident: Node<String>,
    pub params: Vec<Node<String>>,
    pub body: Vec<Node<Statement>>,
}

/// One statement of a program.
#[derive(Debug)]
pub enum Statement {
    Expr(Node<Expr>),
    Func(Node<Rc<Func>>),
    LetAssign(Node<String>, Node<Expr>),
    Assign(Node<String>, Node<Expr>),
    While(Node<Expr>, Vec<Node<Statement>>),
}

/// The abstraction of a user-defined function.
#[verifier::ext_equal]
pub struct FuncV {
    pub ident: NodeV<Seq<char>>,
    pub params: Seq<NodeV<Seq<char>>>,
    pub body: Seq<NodeV<StmtV>>,
}

/// The abstraction of a statement.
#[verifier::ext_equal]
pub enum StmtV {
    Expr(NodeV<ExprV>),
    Func(NodeV<FuncV>),
    LetAssign(NodeV<Seq<char>>, NodeV<ExprV>),
    Assign(NodeV<Seq<char>>, NodeV<ExprV>),
    While(NodeV<ExprV>, Seq<NodeV<StmtV>>),
}

pub open spec fn stmt_view(s: &Statement) -> StmtV
    decreases s, 0int,
{
    match s {
        Statement::Expr(e) => StmtV::Expr(expr_node_view(&e.item, e.span)),
        Statement::Func(f) => StmtV::Func(NodeV { span: f.span, item: func_view(&*f.item) }),
        Statement::LetAssign(x, e) => StmtV::LetAssign(x@, expr_node_view(&e.item, e.span)),
        Statement::Assign(x, e) => StmtV::Assign(x@, expr_node_view(&e.item, e.span)),
        Statement::While(c, body) => StmtV::While(
            expr_node_view(&c.item, c.span),
            stmt_nodes_view(body@),
        ),
    }
}

pub open spec fn stmt_nodes_view(s: Seq<Node<Statement>>) -> Seq<NodeV<StmtV>>
    decreases s, 2int,
{
    if s.len() == 0 {
        Seq::empty()
    } else {
        stmt_nodes_view(s.drop_last()).push(
            NodeV { span: s.last().span, item: stmt_view(&s.last().item) },
        )
    }
}

pub open spec fn func_view(f: &Func) -> FuncV
    decreases f, 1int,
{
    FuncV { ident: f.ident@, params: param_views(f.params@), body: stmt_nodes_view(f.body@) }
}

pub open spec fn param_views(s: Seq<Node<String>>) -> Seq<NodeV<Seq<char>>> {
    s.map_values(|n: Node<String>| NodeV { span: n.span, item: n.item@ })
}

pub proof fn lemma_stmt_nodes_view(s: Seq<Node<Statement>>)
    ensures
        stmt_nodes_view(s).len() == s.len(),
        forall|i: int|
            0 <= i < s.len() ==> stmt_nodes_view(s)[i] == (NodeV {
                span: s[i].span,
                item: stmt_view(&s[i].item),
            }),
    decreases s.len(),
{
    if s.len() > 0 {
        lemma_stmt_nodes_view(s.drop_last());
    }
}

/// Every integer literal under the statement is canonical.
pub open spec fn stmt_wf(s: &Statement) -> bool
    decreases s, 0int,
{
    match s {
        Statement::Expr(e) => expr_wf(&e.item),
        Statement::Func(f) => func_wf(&*f.item),
        Statement::LetAssign(_, e) => expr_wf(&e.item),
        Statement::Assign(_, e) => expr_wf(&e.item),
        Statement::While(c, body) => expr_wf(&c.item) && stmts_wf(body@),
    }
}

pub open spec fn stmts_wf(s: Seq<Node<Statement>>) -> bool
    decreases s, 2int,
{
    if s.len() == 0 {
        true
    } else {
        stmts_wf(s.drop_last()) && stmt_wf(&s.last().item)
    }
}

pub open spec fn func_wf(f: &Func) -> bool
    decreases f, 1int,
{
    stmts_wf(f.body@)
}

pub proof fn lemma_stmts_wf(s: Seq<Node<Statement>>)
    requires
        stmts_wf(s),
    ensures
        forall|i: int| 0 <= i < s.len() ==> stmt_wf(&(#[trigger] s[i]).item),
    decreases s.len(),
{
    if s.len() > 0 {
        lemma_stmts_wf(s.drop_last());
        assert forall|i: int| 0 <= i < s.len() implies stmt_wf(&(#[trigger] s[i]).item) by {
            if i < s.len() - 1 {
                assert(s.drop_last()[i] == s[i]);
            }
        }
    }
}

impl View for Statement {
    type V = StmtV;

    open spec fn view(&self) -> StmtV {
        stmt_view(self)
    }
}

impl View for Func {
    type V = FuncV;

    open spec fn view(&self) -> FuncV {
        func_view(self)
    }
}


// ---------------------------------------------------------------------------
// The statement grammar, written down the same way as the expression tiers:
// one spec-level parsing function per form, with the executable parser
// proved to return exactly the mirror's result.
// ---------------------------------------------------------------------------
pub open spec fn stmt_res_view(r: PResult<Node<Statement>>) -> Result<NodeV<StmtV>, PErrV> {
    match r {
        Ok(n) => Ok(n@),
        Err(e) => Err(e@),
    }
}

/// A function definition's parameter names from one name's start: identifiers
/// separated by commas, stopping before the token that ends the list.
pub open spec fn sp_params(
    t: Seq<TokItem>,
    id: CacheId,
    end: usize,
    i: int,
    acc: Seq<NodeV<Seq<char>>>,
) -> (Result<Seq<NodeV<Seq<char>>>, PErrV>, int)
    decreases t.len() - i, 1int,
    when 0 <= i <= t.len()
{
    if i >= t.len() {
        (Err(PErrV::UnexpectedEnd { data: end_span(id, end) }), i)
    } else {
        match t[i] {
            Err(e) => (Err(e@), i + 1),
            Ok((tok, sp)) => match tok {
                Token::Ident(name) => {
                    let acc1 = acc.push(NodeV { span: sp, item: name@ });
                    let j = i + 1;
                    if j >= t.len() {
                        (Err(PErrV::UnexpectedEnd { data: end_span(id, end) }), j)
                    } else {
                        match t[j] {
                            Err(e) => (Err(e@), j),
                            Ok((tok2, _)) => match tok2 {
                                Token::Comma => sp_params(t, id, end, j + 1, acc1),
                                _ => (Ok(acc1), j),
                            },
                        }
                    }
                },
                _ => (Err(PErrV::UnexpectedToken { data: sp }), i + 1),
            },
        }
    }
}

/// The statements between an already-consumed opening brace and its closing
/// brace; yields them with the closing brace's end offset.
pub open spec fn sp_block(
    t: Seq<TokItem>,
    id: CacheId,
    end: usize,
    open_span: CacheSpan,
    i: int,
    acc: Seq<NodeV<StmtV>>,
) -> (Result<(Seq<NodeV<StmtV>>, usize), PErrV>, int)
    decreases t.len() - i, 21int,
    when 0 <= i <= t.len()
{
    if i >= t.len() {
        (Err(PErrV::UnclosedBrace { data: open_span }), i)
    } else {
        match t[i] {
            Err(e) => (Err(e@), i + 1),
            Ok((tok, sp)) => match tok {
                Token::CloseBrace => (Ok((acc, sp.end)), i + 1),
                _ => {
                    let (st, j) = sp_statement(t, id, end, i);
                    match st {
                        Err(e) => (Err(e), j),
                        Ok(n) => sp_block(
                            t,
                            id,
                            end,
                            open_span,
                            clip(i + 1, t.len() as int, j),
                            acc.push(n),
                        ),
                    }
                },
            },
        }
    }
}

/// One statement: `let name = expr`, `while expr { ... }`,
/// `fn name(params) { ... }`, or an expression statement whose top-level `=`
/// becomes an assignment statement.
pub open spec fn sp_statement(t: Seq<TokItem>, id: CacheId, end: usize, i: int) -> (Result<
    NodeV<StmtV>,
    PErrV,
>, int)
    decreases t.len() - i, 20int,
    when 0 <= i <= t.len()
{
    if i >= t.len() {
        (Err(PErrV::UnexpectedEnd { data: end_span(id, end) }), i)
    } else {
        match t[i] {
            Err(e) => (Err(e@), i),
            Ok((tok0, sp0)) => match tok0 {
                Token::Let => {
                    let j = i + 1;
                    if j >= t.len() {
                        (Err(PErrV::UnexpectedEnd { data: end_span(id, end) }), j)
                    } else {
                        match t[j] {
                            Err(e) => (Err(e@), j + 1),
                            Ok((tok1, sp1)) => match tok1 {
                                Token::Ident(name) => {
                                    let j2 = j + 1;
                                    if j2 >= t.len() {
                                        (
                                            Err(
                                                PErrV::UnexpectedEnd { data: end_span(id, end) },
                                            ),
                                            j2,
                                        )
                                    } else {
                                        match t[j2] {
                                            Err(e) => (Err(e@), j2 + 1),
                                            Ok((tok2, sp2)) => match tok2 {
                                                Token::Assign => {
                                                    let (e, je) = sp_parse(t, id, end, j2 + 1);
                                                    match e {
                                                        Err(er) => (Err(er), je),
                                                        Ok(en) => (
                                                            Ok(
                                                                NodeV {
                                                                    span: CacheSpan {
                                                                        id,
                                                                        start: sp0.start,
                                                                        end: en.span.end,
                                                                    },
                                                                    item: StmtV::LetAssign(
                                                                        NodeV {
                                                                            span: sp1,
                                                                            item: name@,
                                                                        },
                                                                        en,
                                                                    ),
                                                                },
                                                            ),
                                                            je,
                                                        ),
                                                    }
                                                },
                                                _ => (
                                                    Err(PErrV::UnexpectedToken { data: sp2 }),
                                                    j2 + 1,
                                                ),
                                            },
                                        }
                                    }
                                },
                                _ => (Err(PErrV::UnexpectedToken { data: sp1 }), j + 1),
                            },
                        }
                    }
                },
                Token::While => {
                    let (c, jc0) = sp_parse(t, id, end, i + 1);
                    match c {
                        Err(e) => (Err(e), jc0),
                        Ok(cn) => {
                            let jc = clip(i + 2, t.len() as int, jc0);
                            if jc >= t.len() {
                                (Err(PErrV::UnexpectedEnd { data: end_span(id, end) }), jc)
                            } else {
                                match t[jc] {
                                    Err(e) => (Err(e@), jc + 1),
                                    Ok((tok1, sp1)) => match tok1 {
                                        Token::OpenBrace => {
                                            let (b, jb) = sp_block(
                                                t,
                                                id,
                                                end,
                                                sp1,
                                                jc + 1,
                                                Seq::empty(),
                                            );
                                            match b {
                                                Err(e) => (Err(e), jb),
                                                Ok((stmts, endoff)) => (
                                                    Ok(
                                                        NodeV {
                                                            span: CacheSpan {
                                                                id,
                                                                start: sp0.start,
                                                                end: endoff,
                                                            },
                                                            item: StmtV::While(cn, stmts),
                                                        },
                                                    ),
                                                    jb,
                                                ),
                                            }
                                        },
                                        _ => (Err(PErrV::UnexpectedToken { data: sp1 }), jc + 1),
                                    },
                                }
                            }
                        },
                    }
                },
                Token::Func => sp_func_tail(t, id, end, sp0, i + 1),
                _ => {
                    let (e, je) = sp_parse(t, id, end, i);
                    match e {
                        Err(er) => (Err(er), je),
                        Ok(n) => match n.item {
                            ExprV::Assign(x, sub) => (
                                Ok(NodeV { span: n.span, item: StmtV::Assign(x, *sub) }),
                                je,
                            ),
                            _ => (
                                Ok(
                                    NodeV {
                                        span: n.span,
                                        item: StmtV::Expr(NodeV { span: n.span, item: n.item }),
                                    },
                                ),
                                je,
                            ),
                        },
                    }
                },
            },
        }
    }
}

/// A function definition after its `fn` keyword: name, parenthesized
/// parameter names, braced body.
pub open spec fn sp_func_tail(t: Seq<TokItem>, id: CacheId, end: usize, sp0: CacheSpan, i: int) -> (
    Result<NodeV<StmtV>, PErrV>,
    int,
)
    decreases t.len() - i, 19int,
    when 0 <= i <= t.len()
{
    if i >= t.len() {
        (Err(PErrV::UnexpectedEnd { data: end_span(id, end) }), i)
    } else {
        match t[i] {
            Err(e) => (Err(e@), i + 1),
            Ok((tok1, sp1)) => match tok1 {
                Token::Ident(name) => {
                    let identv = NodeV { span: sp1, item: name@ };
                    let j = i + 1;
                    if j >= t.len() {
                        (Err(PErrV::UnexpectedEnd { data: end_span(id, end) }), j)
                    } else {
                        match t[j] {
                            Err(e) => (Err(e@), j + 1),
                            Ok((tok2, sp2)) => match tok2 {
                                Token::OpenParen => {
                                    let j2 = j + 1;
                                    let after = if j2 >= t.len() {
                                        (
                                            Err(PErrV::UnexpectedEnd { data: end_span(id, end) }),
                                            j2,
                                        )
                                    } else {
                                        match t[j2] {
                                            Err(e) => (Err(e@), j2),
                                            Ok((tok3, _)) => match tok3 {
                                                Token::CloseParen => (
                                                    Ok(Seq::<NodeV<Seq<char>>>::empty()),
                                                    j2,
                                                ),
                                                _ => sp_params(t, id, end, j2, Seq::empty()),
                                            },
                                        }
                                    };
                                    match after {
                                        (Err(e), q) => (Err(e), q),
                                        (Ok(ps), q0) => {
                                            let q = clip(j2, t.len() as int, q0);
                                            sp_func_body(t, id, end, sp0, identv, ps, q)
                                        },
                                    }
                                },
                                _ => (Err(PErrV::UnexpectedToken { data: sp2 }), j + 1),
                            },
                        }
                    }
                },
                _ => (Err(PErrV::UnexpectedToken { data: sp1 }), i + 1),
            },
        }
    }
}

/// A function definition's closing parenthesis and braced body.
pub open spec fn sp_func_body(
    t: Seq<TokItem>,
    id: CacheId,
    end: usize,
    sp0: CacheSpan,
    identv: NodeV<Seq<char>>,
    ps: Seq<NodeV<Seq<char>>>,
    q: int,
) -> (Result<NodeV<StmtV>, PErrV>, int)
    decreases t.len() - q, 18int,
    when 0 <= q <= t.len()
{
    if q >= t.len() {
        (Err(PErrV::UnexpectedEnd { data: end_span(id, end) }), q)
    } else {
        match t[q] {
            Err(e) => (Err(e@), q + 1),
            Ok((tok4, sp4)) => match tok4 {
                Token::CloseParen => {
                    let j3 = q + 1;
                    if j3 >= t.len() {
                        (Err(PErrV::UnexpectedEnd { data: end_span(id, end) }), j3)
                    } else {
                        match t[j3] {
                            Err(e) => (Err(e@), j3 + 1),
                            Ok((tok5, sp5)) => match tok5 {
                                Token::OpenBrace => {
                                    let (b, jb) = sp_block(t, id, end, sp5, j3 + 1, Seq::empty());
                                    match b {
                                        Err(e) => (Err(e), jb),
                                        Ok((stmts, endoff)) => {
                                            let full = CacheSpan {
                                                id,
                                                start: sp0.start,
                                                end: endoff,
                                            };
                                            (
                                                Ok(
                                                    NodeV {
                                                        span: full,
                                                        item: StmtV::Func(
                                                            NodeV {
                                                                span: full,
                                                                item: FuncV {
                                                                    ident: identv,
                                                                    params: ps,
                                                                    body: stmts,
                                                                },
                                                            },
                                                        ),
                                                    },
                                                ),
                                                jb,
                                            )
                                        },
                                    }
                                },
                                _ => (Err(PErrV::UnexpectedToken { data: sp5 }), j3 + 1),
                            },
                        }
                    }
                },
                _ => (Err(PErrV::UnexpectedToken { data: sp4 }), q + 1),
            },
        }
    }
}

/// A whole program: statements until the stream is exhausted.
pub open spec fn sp_program(
    t: Seq<TokItem>,
    id: CacheId,
    end: usize,
    i: int,
    acc: Seq<NodeV<StmtV>>,
) -> (Result<Seq<NodeV<StmtV>>, PErrV>, int)
    decreases t.len() - i, 22int,
    when 0 <= i <= t.len()
{
    if i >= t.len() {
        (Ok(acc), i)
    } else {
        let (st, j) = sp_statement(t, id, end, i);
        match st {
            Err(e) => (Err(e), j),
            Ok(n) => sp_program(t, id, end, clip(i + 1, t.len() as int, j), acc.push(n)),
        }
    }
}

// ---------------------------------------------------------------------------
// Statement parsing: `let name = expr`, `while expr { ... }`,
// `fn name(params) { ... }`, and otherwise an expression statement — where a
// top-level `=` expression becomes an assignment statement.
// ---------------------------------------------------------------------------
/// Element-wise well-formedness gives the folded form.
pub proof fn lemma_stmts_wf_intro(s: Seq<Node<Statement>>)
    requires
        forall|i: int| 0 <= i < s.len() ==> stmt_wf(&(#[trigger] s[i]).item),
    ensures
        stmts_wf(s),
    decreases s.len(),
{
    if s.len() > 0 {
        assert forall|i: int| 0 <= i < s.drop_last().len() implies stmt_wf(
            &(#[trigger] s.drop_last()[i]).item,
        ) by {
            assert(s.drop_last()[i] == s[i]);
        }
        lemma_stmts_wf_intro(s.drop_last());
    }
}

impl Statement {
    /// The statements between an already-consumed opening brace and its
    /// closing brace; consumes the closing brace and gives its end offset.
    /// Reaching the end of input first is an unclosed-brace error at the
    /// opening brace.
    #[verifier::rlimit(100)]
    #[verifier::spinoff_prover]
    #[verifier::loop_isolation(false)]
    fn parse_block(tokens: &mut TokenStream, open_span: CacheSpan) -> (r: PResult<
        (Vec<Node<Statement>>, usize),
    >)
        requires
            old(tokens).wf(),
        ensures
            final(tokens).wf(),
            final(tokens).advanced_from(old(tokens)@),
            r matches Ok(p) ==> stmts_wf(p.0@),
            ({
                let (so, sn) = sp_block(
                    old(tokens)@.toks,
                    old(tokens)@.id,
                    old(tokens)@.end,
                    open_span,
                    old(tokens)@.pos,
                    Seq::empty(),
                );
                (match r {
                    Ok(p) => so == Ok::<(Seq<NodeV<StmtV>>, usize), PErrV>(
                        (stmt_nodes_view(p.0@), p.1),
                    ),
                    Err(e) => so == Err::<(Seq<NodeV<StmtV>>, usize), PErrV>(e@),
                }) && final(tokens)@.pos == sn
            }),
        decreases old(tokens).remaining(), 21int,
    {
        let ghost toks = tokens@.toks;
        let ghost sid = tokens@.id;
        let ghost send = tokens@.end;
        let ghost i0 = tokens@.pos;
        let mut stmts: Vec<Node<Statement>> = Vec::new();
        proof {
            assert(stmt_nodes_view(stmts@) =~= Seq::<NodeV<StmtV>>::empty());
        }
        loop
            invariant
                tokens.wf(),
                tokens.advanced_from(old(tokens)@),
                sp_block(toks, sid, send, open_span, i0, Seq::empty()) == sp_block(
                    toks,
                    sid,
                    send,
                    open_span,
                    tokens@.pos,
                    stmt_nodes_view(stmts@),
                ),
                forall|k: int| 0 <= k < stmts@.len() ==> stmt_wf(&(#[trigger] stmts@[k]).item),
            decreases tokens.remaining(),
        {
            match tokens.peek() {
                None => {
                    return Err(PError::UnclosedBrace { data: open_span });
                },
                Some(Err(_)) => {
                    let e = match tokens.next() {
                        Some(Err(e)) => e,
                        _ => {
                            return Err(PError::UnclosedBrace { data: open_span });
                        },
                    };
                    return Err(e);
                },
                Some(Ok((Token::CloseBrace, _))) => {
                    let end = match tokens.next() {
                        Some(Ok((_, sp))) => sp.end,
                        _ => {
                            return Err(PError::UnclosedBrace { data: open_span });
                        },
                    };
                    proof {
                        lemma_stmts_wf_intro(stmts@);
                    }
                    return Ok((stmts, end));
                },
                Some(Ok(_)) => {
                    let ghost pre_seq = stmts@;
                    let ghost pre_view = stmt_nodes_view(stmts@);
                    match Self::parse(tokens) {
                        Ok(st) => {
                            let ghost sv = st@;
                            stmts.push(st);
                            proof {
                                assert(stmts@.drop_last() =~= pre_seq);
                                assert(stmt_nodes_view(stmts@) =~= pre_view.push(sv));
                            }
                        },
                        Err(e) => {
                            return Err(e);
                        },
                    }
                },
            }
        }
    }

    /// One statement.
    #[verifier::rlimit(100)]
    #[verifier::spinoff_prover]
    #[verifier::loop_isolation(false)]
    pub fn parse(tokens: &mut TokenStream) -> (r: PResult<Node<Statement>>)
        requires
            old(tokens).wf(),
        ensures
            final(tokens).wf(),
            final(tokens).advanced_from(old(tokens)@),
            r matches Ok(n) ==> stmt_wf(&n.item) && final(tokens)@.pos > old(tokens)@.pos,
            ({
                let (so, sn) = sp_statement(
                    old(tokens)@.toks,
                    old(tokens)@.id,
                    old(tokens)@.end,
                    old(tokens)@.pos,
                );
                stmt_res_view(r) == so && final(tokens)@.pos == sn
            }),
        decreases old(tokens).remaining(), 20int,
    {
        let starts_with = match tokens.expect_peek("statement") {
            Ok((Token::Let, sp)) => (1u8, *sp),
            Ok((Token::While, sp)) => (2u8, *sp),
            Ok((Token::Func, sp)) => (3u8, *sp),
            Ok((_, sp)) => (0u8, *sp),
            Err(e) => {
                return Err(e);
            },
        };
        if starts_with.0 == 1 {
            // let <name> = <expr>
            let start = starts_with.1.start;
            tokens.next();
            let ident = match tokens.expect_next("identifier") {
                Ok((Token::Ident(name), sp)) => Node::new(sp, name),
                Ok((tok, sp)) => {
                    return Err(
                        PError::UnexpectedToken {
                            expected: String::from_str("identifier"),
                            found: crate::parser::token::token_text(&tok),
                            data: sp,
                        },
                    );
                },
                Err(e) => {
                    return Err(e);
                },
            };
            match tokens.expect_next("'='") {
                Ok((Token::Assign, _)) => {},
                Ok((tok, sp)) => {
                    return Err(
                        PError::UnexpectedToken {
                            expected: String::from_str("'='"),
                            found: crate::parser::token::token_text(&tok),
                            data: sp,
                        },
                    );
                },
                Err(e) => {
                    return Err(e);
                },
            }
            let expr = match Expr::parse(tokens) {
                Ok(n) => n,
                Err(e) => {
                    return Err(e);
                },
            };
            let span = tokens.span(start..expr.span.end);
            Ok(Node::new(span, Statement::LetAssign(ident, expr)))
        } else if starts_with.0 == 2 {
            // while <expr> { <statements> }
            let start = starts_with.1.start;
            tokens.next();
            let cond = match Expr::parse(tokens) {
                Ok(n) => n,
                Err(e) => {
                    return Err(e);
                },
            };
            let open_span = match tokens.expect_next("'{'") {
                Ok((Token::OpenBrace, sp)) => sp,
                Ok((tok, sp)) => {
                    return Err(
                        PError::UnexpectedToken {
                            expected: String::from_str("'{'"),
                            found: crate::parser::token::token_text(&tok),
                            data: sp,
                        },
                    );
                },
                Err(e) => {
                    return Err(e);
                },
            };
            let (body, end) = match Self::parse_block(tokens, open_span) {
                Ok(p) => p,
                Err(e) => {
                    return Err(e);
                },
            };
            let span = tokens.span(start..end);
            Ok(Node::new(span, Statement::While(cond, body)))
        } else if starts_with.0 == 3 {
            // fn <name>(<params>) { <statements> }
            let ghost sp0v = starts_with.1;
            let ghost i0 = tokens@.pos;
            let start = starts_with.1.start;
            tokens.next();
            let ident = match tokens.expect_next("identifier") {
                Ok((Token::Ident(name), sp)) => Node::new(sp, name),
                Ok((tok, sp)) => {
                    return Err(
                        PError::UnexpectedToken {
                            expected: String::from_str("identifier"),
                            found: crate::parser::token::token_text(&tok),
                            data: sp,
                        },
                    );
                },
                Err(e) => {
                    return Err(e);
                },
            };
            match tokens.expect_next("'('") {
                Ok((Token::OpenParen, _)) => {},
                Ok((tok, sp)) => {
                    return Err(
                        PError::UnexpectedToken {
                            expected: String::from_str("'('"),
                            found: crate::parser::token::token_text(&tok),
                            data: sp,
                        },
                    );
                },
                Err(e) => {
                    return Err(e);
                },
            }
            let ghost toks = tokens@.toks;
            let ghost sid = tokens@.id;
            let ghost send = tokens@.end;
            let ghost j2 = tokens@.pos;
            let mut params: Vec<Node<String>> = Vec::new();
            proof {
                assert(param_views(params@) =~= Seq::<NodeV<Seq<char>>>::empty());
            }
            let stop = match tokens.expect_peek("parameter or ')'") {
                Ok((Token::CloseParen, _)) => true,
                Ok(_) => false,
                Err(e) => {
                    return Err(e);
                },
            };
            if !stop {
                loop
                    invariant
                        tokens.wf(),
                        tokens.advanced_from(old(tokens)@),
                        tokens@.pos > old(tokens)@.pos,
                        tokens@.pos >= j2,
                        sp_params(toks, sid, send, j2, Seq::empty()) == sp_params(
                            toks,
                            sid,
                            send,
                            tokens@.pos,
                            param_views(params@),
                        ),
                    decreases tokens.remaining(),
                {
                    let ghost pre_views = param_views(params@);
                    match tokens.expect_next("parameter") {
                        Ok((Token::Ident(name), sp)) => {
                            let ghost nv = NodeV { span: sp, item: name@ };
                            params.push(Node::new(sp, name));
                            proof {
                                assert(param_views(params@) =~= pre_views.push(nv));
                            }
                        },
                        Ok((tok, sp)) => {
                            return Err(
                                PError::UnexpectedToken {
                                    expected: String::from_str("parameter"),
                                    found: crate::parser::token::token_text(&tok),
                                    data: sp,
                                },
                            );
                        },
                        Err(e) => {
                            return Err(e);
                        },
                    }
                    match tokens.expect_peek("',' or ')'") {
                        Ok((Token::Comma, _)) => {
                            tokens.next();
                        },
                        Ok(_) => {
                            break ;
                        },
                        Err(e) => {
                            return Err(e);
                        },
                    }
                }
            }
            proof {
                assert(sp_statement(toks, sid, send, i0) == sp_func_tail(toks, sid, send, sp0v, i0 + 1));
                assert(sp_func_tail(toks, sid, send, sp0v, i0 + 1) == sp_func_body(
                    toks,
                    sid,
                    send,
                    sp0v,
                    ident@,
                    param_views(params@),
                    tokens@.pos as int,
                ));
            }
            match tokens.expect_next("')'") {
                Ok((Token::CloseParen, _)) => {},
                Ok((tok, sp)) => {
                    return Err(
                        PError::UnexpectedToken {
                            expected: String::from_str("')'"),
                            found: crate::parser::token::token_text(&tok),
                            data: sp,
                        },
                    );
                },
                Err(e) => {
                    return Err(e);
                },
            }
            let open_span = match tokens.expect_next("'{'") {
                Ok((Token::OpenBrace, sp)) => sp,
                Ok((tok, sp)) => {
                    return Err(
                        PError::UnexpectedToken {
                            expected: String::from_str("'{'"),
                            found: crate::parser::token::token_text(&tok),
                            data: sp,
                        },
                    );
                },
                Err(e) => {
                    return Err(e);
                },
            };
            let (body, end) = match Self::parse_block(tokens, open_span) {
                Ok(p) => p,
                Err(e) => {
                    return Err(e);
                },
            };
            let span = tokens.span(start..end);
            let def = Func { ident, params, body };
            Ok(Node::new(span, Statement::Func(Node::new(span, Rc::new(def)))))
        } else {
            // an expression statement; a top-level `=` becomes an assignment
            let expr = match Expr::parse(tokens) {
                Ok(n) => n,
                Err(e) => {
                    return Err(e);
                },
            };
            match expr.into_parts() {
                (sp, Expr::Assign(target, sub)) => Ok(
                    Node::new(sp, Statement::Assign(target, *sub)),
                ),
                (sp, item) => Ok(Node::new(sp, Statement::Expr(Node::new(sp, item)))),
            }
        }
    }
}

/// A whole program: statements parsed one after another until the token
/// stream is exhausted; the first failure aborts the parse.
#[verifier::rlimit(100)]
#[verifier::spinoff_prover]
#[verifier::loop_isolation(false)]
pub fn parse(tokens: &mut TokenStream) -> (r: PResult<Vec<Node<Statement>>>)
    requires
        old(tokens).wf(),
    ensures
        final(tokens).wf(),
        final(tokens).advanced_from(old(tokens)@),
        r matches Ok(prog) ==> stmts_wf(prog@) && forall|i: int|
            0 <= i < prog@.len() ==> stmt_wf(&(#[trigger] prog@[i]).item),
        r matches Ok(prog) ==> final(tokens)@.pos == final(tokens)@.toks.len(),
        ({
            let (so, sn) = sp_program(
                old(tokens)@.toks,
                old(tokens)@.id,
                old(tokens)@.end,
                old(tokens)@.pos,
                Seq::empty(),
            );
            (match r {
                Ok(prog) => so == Ok::<Seq<NodeV<StmtV>>, PErrV>(stmt_nodes_view(prog@)),
                Err(e) => so == Err::<Seq<NodeV<StmtV>>, PErrV>(e@),
            }) && final(tokens)@.pos == sn
        }),
{
    let ghost toks = tokens@.toks;
    let ghost sid = tokens@.id;
    let ghost send = tokens@.end;
    let ghost i0 = tokens@.pos;
    let mut prog: Vec<Node<Statement>> = Vec::new();
    proof {
        assert(stmt_nodes_view(prog@) =~= Seq::<NodeV<StmtV>>::empty());
    }
    loop
        invariant
            tokens.wf(),
            tokens.advanced_from(old(tokens)@),
            sp_program(toks, sid, send, i0, Seq::empty()) == sp_program(
                toks,
                sid,
                send,
                tokens@.pos,
                stmt_nodes_view(prog@),
            ),
            forall|k: int| 0 <= k < prog@.len() ==> stmt_wf(&(#[trigger] prog@[k]).item),
        decreases tokens.remaining(),
    {
        match tokens.peek() {
            None => {
                proof {
                    lemma_stmts_wf_intro(prog@);
                }
                return Ok(prog);
            },
            Some(_) => {
                let ghost pre_seq = prog@;
                let ghost pre_view = stmt_nodes_view(prog@);
                match Statement::parse(tokens) {
                    Ok(st) => {
                        let ghost sv = st@;
                        prog.push(st);
                        proof {
                            assert(prog@.drop_last() =~= pre_seq);
                            assert(stmt_nodes_view(prog@) =~= pre_view.push(sv));
                        }
                    },
                    Err(e) => {
                        return Err(e);
                    },
                }
            },
        }
    }
}

} // verus!
